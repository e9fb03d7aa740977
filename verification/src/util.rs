//! Turning what a walk of the local tree found into the list of entries to
//! mirror, each with the remote path it belongs at.

use crate::path::{
    is_absolute_path, mapped, parent_of, render_path, split_components, texts, PathMapper,
};
use crate::ssh::{Endpoint, SSH_PORT};
use vstd::prelude::*;

verus! {

/// What a walk of the local tree found at one position.
#[derive(Debug, PartialEq, Eq)]
pub struct WalkItem {
    /// The absolute local path of the entry.
    pub path: String,
    /// Whether the entry is a directory.
    pub is_dir: bool,
}

/// A `WalkItem` as a mathematical value.
pub struct WalkItemView {
    pub path: Seq<char>,
    pub is_dir: bool,
}

impl View for WalkItem {
    type V = WalkItemView;

    open spec fn view(&self) -> WalkItemView {
        WalkItemView { path: self.path@, is_dir: self.is_dir }
    }
}

/// One entry to mirror.
#[derive(Debug, PartialEq, Eq)]
pub struct PathEntry {
    /// The absolute local path of the entry.
    pub local: String,
    /// Where the entry belongs on the remote side.
    pub remote: String,
    /// Whether the entry is a directory.
    pub is_dir: bool,
}

/// A `PathEntry` as a mathematical value.
pub struct PathEntryView {
    pub local: Seq<char>,
    pub remote: Seq<char>,
    pub is_dir: bool,
}

impl View for PathEntry {
    type V = PathEntryView;

    open spec fn view(&self) -> PathEntryView {
        PathEntryView { local: self.local@, remote: self.remote@, is_dir: self.is_dir }
    }
}

/// Why a position of the walk gives no entry to mirror.
#[derive(Debug, PartialEq, Eq)]
pub enum WalkError {
    /// The walk could not read the position.
    Unreadable { reason: String },
    /// The walk left the tree: the path does not lie below the prefix.
    OutsideSource { path: String },
}

/// A `WalkError` as a mathematical value.
pub enum WalkErrorView {
    Unreadable { reason: Seq<char> },
    OutsideSource { path: Seq<char> },
}

impl View for WalkError {
    type V = WalkErrorView;

    open spec fn view(&self) -> WalkErrorView {
        match self {
            WalkError::Unreadable { reason } => WalkErrorView::Unreadable { reason: reason@ },
            WalkError::OutsideSource { path } => WalkErrorView::OutsideSource { path: path@ },
        }
    }
}

/// What the walk reported at one position, as a mathematical value.
pub open spec fn item_view(item: Result<WalkItem, String>) -> Result<WalkItemView, Seq<char>> {
    match item {
        Ok(found) => Ok(found@),
        Err(reason) => Err(reason@),
    }
}

/// What became of one position, as a mathematical value.
pub open spec fn entry_view(entry: Result<PathEntry, WalkError>) -> Result<
    PathEntryView,
    WalkErrorView,
> {
    match entry {
        Ok(e) => Ok(e@),
        Err(e) => Err(e@),
    }
}

/// What the walk reported, position by position, as mathematical values.
pub open spec fn items_view(items: Seq<Result<WalkItem, String>>) -> Seq<
    Result<WalkItemView, Seq<char>>,
> {
    Seq::new(items.len(), |i: int| item_view(items[i]))
}

/// What became of the positions, as mathematical values.
pub open spec fn entries_view(entries: Seq<Result<PathEntry, WalkError>>) -> Seq<
    Result<PathEntryView, WalkErrorView>,
> {
    Seq::new(entries.len(), |i: int| entry_view(entries[i]))
}

/// What becomes of one position of the walk: an entry with its remote path
/// if the walk read the position and the path lies at or below `prefix`, an
/// error otherwise.
pub open spec fn bijected(
    item: Result<WalkItemView, Seq<char>>,
    prefix: Seq<char>,
    destination: Seq<char>,
) -> Result<PathEntryView, WalkErrorView> {
    match item {
        Err(reason) => Err(WalkErrorView::Unreadable { reason }),
        Ok(found) => match mapped(found.path, prefix, destination) {
            Some(remote) => Ok(
                PathEntryView { local: found.path, remote, is_dir: found.is_dir },
            ),
            None => Err(WalkErrorView::OutsideSource { path: found.path }),
        },
    }
}

/// What becomes of a whole walk, position by position.
pub open spec fn bijected_all(
    items: Seq<Result<WalkItemView, Seq<char>>>,
    prefix: Seq<char>,
    destination: Seq<char>,
) -> Seq<Result<PathEntryView, WalkErrorView>> {
    Seq::new(items.len(), |i: int| bijected(items[i], prefix, destination))
}

/// The prefix to strip from the entries of the tree rooted at `pth`: the
/// parent of `pth`, so that the root's own name is kept. The root of the
/// file system has no parent, and its prefix is empty.
pub fn calc_prefix(pth: &str) -> (prefix: String)
    ensures
        prefix@ == parent_of(pth@),
{
    let mut parts = split_components(pth);
    if parts.len() == 0 {
        return String::new();
    }
    let ghost all = texts(parts@);
    parts.pop();
    proof {
        assert(texts(parts@) == all.drop_last());
    }
    render_path(is_absolute_path(pth), &parts)
}

/// Pairs every position of a walk with its remote path below `dst_folder`,
/// position by position and in the order of the walk: nothing is dropped,
/// doubled or moved. A position that the walk could not read stays an error;
/// so does a path that does not lie below `prefix`.
pub fn biject_paths(items: &Vec<Result<WalkItem, String>>, prefix: &str, dst_folder: &str) -> (out:
    Vec<Result<PathEntry, WalkError>>)
    ensures
        entries_view(out@) == bijected_all(items_view(items@), prefix@, dst_folder@),
{
    let mapper = PathMapper::with_prefix(prefix, dst_folder);
    let mut out: Vec<Result<PathEntry, WalkError>> = Vec::new();
    let mut i: usize = 0;
    while i < items.len()
        invariant
            i <= items.len(),
            out.len() == i,
            mapper.prefix() == prefix@,
            mapper.destination() == dst_folder@,
            forall|j: int|
                0 <= j < i ==> entry_view(#[trigger] out[j]) == bijected(
                    item_view(items[j]),
                    prefix@,
                    dst_folder@,
                ),
        decreases items.len() - i,
    {
        let next = match &items[i] {
            Err(reason) => Err(WalkError::Unreadable { reason: reason.clone() }),
            Ok(found) => match mapper.map(found.path.as_str()) {
                Some(remote) => Ok(
                    PathEntry { local: found.path.clone(), remote, is_dir: found.is_dir },
                ),
                None => Err(WalkError::OutsideSource { path: found.path.clone() }),
            },
        };
        out.push(next);
        i += 1;
    }
    assert(entries_view(out@) =~= bijected_all(items_view(items@), prefix@, dst_folder@));
    out
}

// ---------------------------------------------------------------------------
// The instances to choose a host from
// ---------------------------------------------------------------------------

/// The key of the tag that holds an instance's display name.
pub const NAME_KEY: &'static str = "Name";

/// A tag of an instance, as the compute service reports it.
#[derive(Debug, PartialEq, Eq)]
pub struct Tag {
    pub key: Option<String>,
    pub value: Option<String>,
}

/// One instance to choose from.
#[derive(Debug, PartialEq, Eq)]
pub struct SelectOption {
    /// The display name of the instance.
    pub name: String,
    /// The unique id of the instance.
    pub instance_id: String,
    /// The public address of the instance, if one is assigned.
    pub public_dns_name: Option<String>,
    /// The lifecycle state of the instance.
    pub state: Option<String>,
    /// The machine type of the instance.
    pub instance_type: Option<String>,
}

/// What is shown where the compute service did not say.
pub const UNKNOWN: &'static str = "unknown";

/// The tag gives a display name: its key is `Name` and it has a value.
pub open spec fn is_name_tag(tag: Tag) -> bool {
    tag.key matches Some(k) && k@ == NAME_KEY@ && tag.value is Some
}

/// The display name that `tags` give: the value of the last tag with the
/// key `Name` that has one, and the empty name where there is none.
pub open spec fn name_in(tags: Seq<Tag>) -> Seq<char>
    decreases tags.len(),
{
    if tags.len() == 0 {
        Seq::empty()
    } else if is_name_tag(tags.last()) {
        tags.last().value->Some_0@
    } else {
        name_in(tags.drop_last())
    }
}

/// The text of `field`, or `unknown` where there is none.
pub open spec fn known(field: Option<String>) -> Seq<char> {
    match field {
        Some(text) => text@,
        None => UNKNOWN@,
    }
}

/// The ids of `options`, one comma between neighbours.
pub open spec fn comma_separated_ids(options: Seq<SelectOption>) -> Seq<char>
    decreases options.len(),
{
    if options.len() == 0 {
        Seq::empty()
    } else if options.len() == 1 {
        options[0].instance_id@
    } else {
        comma_separated_ids(options.drop_last()) + seq![','] + options.last().instance_id@
    }
}

/// The line that shows `option` to the user.
pub open spec fn label_of(option: SelectOption) -> Seq<char> {
    "name = "@ + option.name@ + ", type = "@ + known(option.instance_type) + ", instance_id = "@
        + option.instance_id@ + ", status = "@ + known(option.state)
}

/// The display name that `tags` give.
pub fn display_name(tags: &Vec<Tag>) -> (name: String)
    ensures
        name@ == name_in(tags@),
{
    let key = NAME_KEY.to_owned();
    let mut name = String::new();
    let mut i: usize = 0;
    proof {
        assert(tags@.subrange(0, 0) == Seq::<Tag>::empty());
    }
    while i < tags.len()
        invariant
            i <= tags.len(),
            key@ == NAME_KEY@,
            name@ == name_in(tags@.subrange(0, i as int)),
        decreases tags.len() - i,
    {
        let ghost upto = tags@.subrange(0, i + 1);
        proof {
            assert(upto.drop_last() == tags@.subrange(0, i as int));
            assert(upto.last() == tags@[i as int]);
        }
        match (&tags[i].key, &tags[i].value) {
            (Some(k), Some(v)) => {
                if *k == key {
                    name = v.clone();
                }
            },
            _ => {},
        }
        i += 1;
    }
    proof {
        assert(tags@.subrange(0, tags.len() as int) == tags@);
    }
    name
}

/// Express list of instance ids as a comma separated string.
pub fn ids_to_str(ids: Vec<SelectOption>) -> (text: String)
    ensures
        text@ == comma_separated_ids(ids@),
{
    let mut text = String::new();
    let mut i: usize = 0;
    proof {
        reveal_strlit(",");
        assert(ids@.subrange(0, 0) == Seq::<SelectOption>::empty());
    }
    while i < ids.len()
        invariant
            i <= ids.len(),
            ","@ == seq![','],
            text@ == comma_separated_ids(ids@.subrange(0, i as int)),
        decreases ids.len() - i,
    {
        let ghost upto = ids@.subrange(0, i + 1);
        proof {
            assert(upto.drop_last() == ids@.subrange(0, i as int));
            assert(upto.last() == ids@[i as int]);
        }
        if i > 0 {
            text.append(",");
        } else {
            proof {
                assert(Seq::<char>::empty() + upto.last().instance_id@ == upto.last().instance_id@);
            }
        }
        text.append(ids[i].instance_id.as_str());
        i += 1;
    }
    proof {
        assert(ids@.subrange(0, ids.len() as int) == ids@);
    }
    text
}

impl SelectOption {
    /// The line that shows the option to the user. Where the machine type
    /// or the state is not known, the line says `unknown`.
    pub fn label(&self) -> (text: String)
        ensures
            text@ == label_of(*self),
    {
        let mut text = "name = ".to_owned();
        text.append(self.name.as_str());
        text.append(", type = ");
        match &self.instance_type {
            Some(t) => text.append(t.as_str()),
            None => text.append(UNKNOWN),
        }
        text.append(", instance_id = ");
        text.append(self.instance_id.as_str());
        text.append(", status = ");
        match &self.state {
            Some(s) => text.append(s.as_str()),
            None => text.append(UNKNOWN),
        }
        text
    }

    /// Where to connect to in order to reach the instance as `user`: its
    /// public address on the usual port. An instance without a public
    /// address, or with an empty one, cannot be reached.
    pub fn endpoint(&self, user: &str) -> (endpoint: Option<Endpoint>)
        ensures
            match endpoint {
                Some(e) => {
                    &&& self.public_dns_name matches Some(address)
                    &&& address@.len() > 0
                    &&& e.host@ == address@
                    &&& e.port == SSH_PORT
                    &&& e.user@ == user@
                },
                None => !(self.public_dns_name matches Some(address) && address@.len() > 0),
            },
    {
        match &self.public_dns_name {
            Some(address) => {
                if address.as_str().is_empty() {
                    None
                } else {
                    Some(Endpoint { host: address.clone(), port: SSH_PORT, user: user.to_owned() })
                }
            },
            None => None,
        }
    }
}

} // verus!
