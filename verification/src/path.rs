//! A model of slash-separated paths as sequences of components, and the
//! executable operations that realise it on strings. What is proved of the
//! model stands in `path_proofs`.
//!
//! A path is read as a flag (does it start at the root?) and the list of its
//! names: the maximal runs of characters between separators. Repeated and
//! trailing separators carry no meaning, so `/a//b/` and `/a/b` are the same
//! path. The names `.` and `..` are names like any other: the paths that are
//! mapped have been resolved before. Every operation below is stated over
//! that reading.

use crate::path_proofs::lemma_first_sep_is;
use crate::util::calc_prefix;
use vstd::prelude::*;

verus! {

/// The character that separates the names of a path.
pub const SEPARATOR: char = '/';

/// The number of characters of `p` before its first separator (all of them if
/// it has none).
pub open spec fn first_sep(p: Seq<char>) -> nat
    decreases p.len(),
{
    if p.len() == 0 || p[0] == SEPARATOR {
        0
    } else {
        1 + first_sep(p.drop_first())
    }
}

/// A name is a non-empty run of characters without a separator.
pub open spec fn is_name(c: Seq<char>) -> bool {
    &&& c.len() > 0
    &&& forall|i: int| 0 <= i < c.len() ==> c[i] != SEPARATOR
}

/// Every element of `parts` is a name.
pub open spec fn all_names(parts: Seq<Seq<char>>) -> bool {
    forall|i: int| 0 <= i < parts.len() ==> is_name(#[trigger] parts[i])
}

/// The names of `p`, in order: what stands between its separators, empty
/// runs left out.
pub open spec fn components(p: Seq<char>) -> Seq<Seq<char>>
    decreases p.len(),
{
    if p.len() == 0 {
        Seq::empty()
    } else {
        let k = first_sep(p) as int;
        let rest = if k < p.len() {
            components(p.subrange(k + 1, p.len() as int))
        } else {
            Seq::empty()
        };
        if k == 0 {
            rest
        } else {
            seq![p.subrange(0, k)] + rest
        }
    }
}

/// A path is absolute when it starts with a separator.
pub open spec fn is_absolute(p: Seq<char>) -> bool {
    p.len() > 0 && p[0] == SEPARATOR
}

/// The names of `parts` with one separator between neighbours.
pub open spec fn join(parts: Seq<Seq<char>>) -> Seq<char>
    decreases parts.len(),
{
    if parts.len() == 0 {
        Seq::empty()
    } else if parts.len() == 1 {
        parts[0]
    } else {
        join(parts.drop_last()) + seq![SEPARATOR] + parts.last()
    }
}

/// The text of the path with the given names: `join(parts)`, behind a
/// leading separator when the path is absolute.
pub open spec fn render(absolute: bool, parts: Seq<Seq<char>>) -> Seq<char> {
    if absolute {
        seq![SEPARATOR] + join(parts)
    } else {
        join(parts)
    }
}

/// A path text is normal when it is exactly the rendering of its own names:
/// no repeated and no trailing separator.
pub open spec fn is_normal(p: Seq<char>) -> bool {
    p == render(is_absolute(p), components(p))
}

/// `p` extended by one name, with a separator in between unless `p` is empty
/// or already ends in one.
pub open spec fn push_name(p: Seq<char>, name: Seq<char>) -> Seq<char> {
    if p.len() == 0 || p.last() == SEPARATOR {
        p + name
    } else {
        p + seq![SEPARATOR] + name
    }
}

/// `p` extended by each of `names` in turn.
pub open spec fn descend(p: Seq<char>, names: Seq<Seq<char>>) -> Seq<char>
    decreases names.len(),
{
    if names.len() == 0 {
        p
    } else {
        push_name(descend(p, names.drop_last()), names.last())
    }
}

/// The parent of `p`: the path of all its names but the last. A path without
/// names (the root, or the empty path) has no parent, and the empty path
/// stands for it.
pub open spec fn parent_of(p: Seq<char>) -> Seq<char> {
    let parts = components(p);
    if parts.len() == 0 {
        Seq::empty()
    } else {
        render(is_absolute(p), parts.drop_last())
    }
}

/// The last name of `p` as a list: empty for a path without names.
pub open spec fn base_name(p: Seq<char>) -> Seq<Seq<char>> {
    let parts = components(p);
    if parts.len() == 0 {
        Seq::empty()
    } else {
        seq![parts.last()]
    }
}

/// `entry` lies at or below `prefix`: the names of `prefix` begin those of
/// `entry`, and both start from the same place. A prefix without names lies
/// above everything.
pub open spec fn strips(entry: Seq<char>, prefix: Seq<char>) -> bool {
    let e = components(entry);
    let p = components(prefix);
    &&& p.len() <= e.len()
    &&& e.subrange(0, p.len() as int) == p
    &&& (p.len() == 0 || is_absolute(prefix) == is_absolute(entry))
}

/// The names of `entry` that follow those of `prefix`.
pub open spec fn remainder(entry: Seq<char>, prefix: Seq<char>) -> Seq<Seq<char>> {
    components(entry).subrange(components(prefix).len() as int, components(entry).len() as int)
}

/// Where `entry` goes: the names of `entry` below `prefix`, joined onto
/// `destination`.
pub open spec fn remote_path(entry: Seq<char>, prefix: Seq<char>, destination: Seq<char>) -> Seq<
    char,
> {
    render(is_absolute(destination), components(destination) + remainder(entry, prefix))
}

/// The result of mapping `entry`: its remote path if it lies at or below
/// `prefix`, nothing otherwise.
pub open spec fn mapped(entry: Seq<char>, prefix: Seq<char>, destination: Seq<char>) -> Option<
    Seq<char>,
> {
    if strips(entry, prefix) {
        Some(remote_path(entry, prefix, destination))
    } else {
        None
    }
}

/// The texts of a list of strings.
pub open spec fn texts(parts: Seq<String>) -> Seq<Seq<char>> {
    Seq::new(parts.len(), |i: int| parts[i]@)
}

// ---------------------------------------------------------------------------
// Executable operations
// ---------------------------------------------------------------------------

/// The characters of `s`, in order.
fn chars_of(s: &str) -> (v: Vec<char>)
    ensures
        v@ == s@,
{
    let mut v: Vec<char> = Vec::new();
    for c in it: s.chars()
        invariant
            v@ == s@.subrange(0, it.index() as int),
            it.seq() == s@,
    {
        v.push(c);
    }
    v
}

/// Whether `p` starts at the root.
pub fn is_absolute_path(p: &str) -> (b: bool)
    ensures
        b == is_absolute(p@),
{
    !p.is_empty() && p.get_char(0) == SEPARATOR
}

/// Splits `p` into its names.
pub fn split_components(p: &str) -> (parts: Vec<String>)
    ensures
        texts(parts@) == components(p@),
{
    let cs = chars_of(p);
    let n: usize = cs.len();
    let mut parts: Vec<String> = Vec::new();
    let mut start: usize = 0;
    let mut i: usize = 0;
    proof {
        assert(p@.subrange(0, n as int) == p@);
        assert(texts(parts@) + components(p@) == components(p@));
    }
    while i < n
        invariant
            n == cs.len(),
            cs@ == p@,
            start <= i <= n,
            forall|j: int| start <= j < i ==> cs@[j] != SEPARATOR,
            components(p@) == texts(parts@) + components(p@.subrange(start as int, n as int)),
        decreases n - i,
    {
        if cs[i] == SEPARATOR {
            let ghost before = texts(parts@);
            let ghost q = p@.subrange(start as int, n as int);
            let ghost k = i - start;
            proof {
                lemma_first_sep_is(q, k);
                assert(q.subrange(k + 1, q.len() as int) == p@.subrange(i + 1, n as int));
                assert(q.subrange(0, k) == p@.subrange(start as int, i as int));
            }
            if start < i {
                let name = p.substring_char(start, i);
                parts.push(name.to_owned());
                proof {
                    let head = seq![p@.subrange(start as int, i as int)];
                    let rest = components(p@.subrange(i + 1, n as int));
                    assert(texts(parts@) == before + head);
                    assert((before + head) + rest == before + (head + rest));
                }
            }
            start = i + 1;
        }
        i += 1;
    }
    let ghost before = texts(parts@);
    let ghost q = p@.subrange(start as int, n as int);
    proof {
        lemma_first_sep_is(q, q.len() as int);
    }
    if start < n {
        let name = p.substring_char(start, n);
        parts.push(name.to_owned());
        proof {
            assert(q.subrange(0, q.len() as int) == q);
            assert(components(q) == seq![q] + Seq::<Seq<char>>::empty());
            assert(texts(parts@) == before + seq![q]);
            assert(before + (seq![q] + Seq::<Seq<char>>::empty()) == before + seq![q]);
        }
    } else {
        proof {
            assert(components(q) == Seq::<Seq<char>>::empty());
            assert(before + Seq::<Seq<char>>::empty() == before);
        }
    }
    parts
}

/// Writes out the path with the given names.
pub fn render_path(absolute: bool, parts: &Vec<String>) -> (s: String)
    ensures
        s@ == render(absolute, texts(parts@)),
{
    let mut s = String::new();
    proof {
        reveal_strlit("/");
    }
    if absolute {
        s.append("/");
    }
    let ghost lead = s@;
    let mut i: usize = 0;
    proof {
        assert(texts(parts@).subrange(0, 0) == Seq::<Seq<char>>::empty());
        assert(lead + Seq::<char>::empty() == lead);
    }
    while i < parts.len()
        invariant
            i <= parts.len(),
            "/"@ == seq![SEPARATOR],
            lead == if absolute {
                seq![SEPARATOR]
            } else {
                Seq::<char>::empty()
            },
            s@ == lead + join(texts(parts@).subrange(0, i as int)),
        decreases parts.len() - i,
    {
        let ghost so_far = texts(parts@).subrange(0, i as int);
        let ghost next = texts(parts@).subrange(0, i + 1);
        proof {
            assert(next.drop_last() == so_far);
            assert(next.last() == parts@[i as int]@);
        }
        if i > 0 {
            s.append("/");
            proof {
                assert(lead + join(so_far) + seq![SEPARATOR] + next.last() == lead + (join(so_far)
                    + seq![SEPARATOR] + next.last()));
            }
        } else {
            proof {
                assert(join(so_far) == Seq::<char>::empty());
                assert(lead + Seq::<char>::empty() + next.last() == lead + next.last());
            }
        }
        s.append(parts[i].as_str());
        i += 1;
    }
    proof {
        assert(texts(parts@).subrange(0, parts.len() as int) == texts(parts@));
    }
    s
}

/// Whether the names in `prefix` begin those in `entry`.
fn starts_with_names(entry: &Vec<String>, prefix: &Vec<String>) -> (b: bool)
    ensures
        b == (prefix.len() <= entry.len() && texts(entry@).subrange(0, prefix.len() as int)
            == texts(prefix@)),
{
    if prefix.len() > entry.len() {
        return false;
    }
    let mut i: usize = 0;
    while i < prefix.len()
        invariant
            i <= prefix.len() <= entry.len(),
            forall|j: int| 0 <= j < i ==> entry@[j]@ == prefix@[j]@,
        decreases prefix.len() - i,
    {
        if entry[i] != prefix[i] {
            proof {
                let cut = texts(entry@).subrange(0, prefix.len() as int);
                assert(cut[i as int] == entry@[i as int]@);
                assert(texts(prefix@)[i as int] == prefix@[i as int]@);
            }
            return false;
        }
        i += 1;
    }
    proof {
        let cut = texts(entry@).subrange(0, prefix.len() as int);
        assert forall|j: int| 0 <= j < cut.len() implies cut[j] == texts(prefix@)[j] by {
            assert(cut[j] == entry@[j]@);
        }
        assert(cut == texts(prefix@));
    }
    true
}

/// Maps local entries to their remote paths: what lies below a prefix on
/// this side goes, with the same names, below a destination on the other.
pub struct PathMapper {
    prefix: String,
    destination: String,
    prefix_parts: Vec<String>,
    prefix_absolute: bool,
    destination_parts: Vec<String>,
    destination_absolute: bool,
}

impl PathMapper {
    #[verifier::type_invariant]
    spec fn parsed(self) -> bool {
        &&& texts(self.prefix_parts@) == components(self.prefix@)
        &&& self.prefix_absolute == is_absolute(self.prefix@)
        &&& texts(self.destination_parts@) == components(self.destination@)
        &&& self.destination_absolute == is_absolute(self.destination@)
    }

    /// The local prefix that is stripped from every entry.
    pub closed spec fn prefix(&self) -> Seq<char> {
        self.prefix@
    }

    /// The remote root that every entry is joined onto.
    pub closed spec fn destination(&self) -> Seq<char> {
        self.destination@
    }

    /// A mapper that strips `prefix` and joins onto `destination_root`.
    pub fn with_prefix(prefix: &str, destination_root: &str) -> (m: PathMapper)
        ensures
            m.prefix() == prefix@,
            m.destination() == destination_root@,
    {
        PathMapper {
            prefix: prefix.to_owned(),
            destination: destination_root.to_owned(),
            prefix_parts: split_components(prefix),
            prefix_absolute: is_absolute_path(prefix),
            destination_parts: split_components(destination_root),
            destination_absolute: is_absolute_path(destination_root),
        }
    }

    /// A mapper for the tree rooted at `source_root`: it strips the parent of
    /// the root, so that the root's own name is kept as the first name below
    /// `destination_root`.
    pub fn new(source_root: &str, destination_root: &str) -> (m: PathMapper)
        ensures
            m.prefix() == parent_of(source_root@),
            m.destination() == destination_root@,
    {
        let prefix = calc_prefix(source_root);
        PathMapper::with_prefix(prefix.as_str(), destination_root)
    }

    /// The local prefix, as text.
    pub fn prefix_text(&self) -> (s: &String)
        ensures
            s@ == self.prefix(),
    {
        &self.prefix
    }

    /// The remote root, as text.
    pub fn destination_text(&self) -> (s: &String)
        ensures
            s@ == self.destination(),
    {
        &self.destination
    }

    /// The remote path of `local_entry`, or nothing when the entry does not
    /// lie at or below the prefix.
    pub fn map(&self, local_entry: &str) -> (remote: Option<String>)
        ensures
            match remote {
                Some(r) => mapped(local_entry@, self.prefix(), self.destination()) == Some(r@),
                None => mapped(local_entry@, self.prefix(), self.destination()) is None,
            },
    {
        proof {
            use_type_invariant(self);
        }
        let entry_parts = split_components(local_entry);
        if !starts_with_names(&entry_parts, &self.prefix_parts) {
            return None;
        }
        if self.prefix_parts.len() > 0 && self.prefix_absolute != is_absolute_path(local_entry) {
            return None;
        }
        let mut names: Vec<String> = Vec::new();
        let mut i: usize = 0;
        while i < self.destination_parts.len()
            invariant
                i <= self.destination_parts.len(),
                texts(names@) == texts(self.destination_parts@).subrange(0, i as int),
            decreases self.destination_parts.len() - i,
        {
            let ghost before = texts(names@);
            names.push(self.destination_parts[i].clone());
            proof {
                let upto = texts(self.destination_parts@).subrange(0, i + 1);
                assert(upto.drop_last() == before);
                assert(texts(names@) == before.push(upto.last()));
            }
            i += 1;
        }
        let ghost dst = texts(self.destination_parts@);
        let ghost ent = texts(entry_parts@);
        let first: usize = self.prefix_parts.len();
        let mut j: usize = first;
        proof {
            assert(dst.subrange(0, dst.len() as int) == dst);
            assert(dst + ent.subrange(first as int, first as int) == dst);
        }
        while j < entry_parts.len()
            invariant
                first <= j <= entry_parts.len(),
                ent == texts(entry_parts@),
                texts(names@) == dst + ent.subrange(first as int, j as int),
            decreases entry_parts.len() - j,
        {
            let ghost before = texts(names@);
            names.push(entry_parts[j].clone());
            proof {
                let upto = ent.subrange(first as int, j + 1);
                assert(upto.drop_last() == ent.subrange(first as int, j as int));
                assert(texts(names@) == before.push(upto.last()));
                assert((dst + upto.drop_last()).push(upto.last()) == dst + upto);
            }
            j += 1;
        }
        Some(render_path(self.destination_absolute, &names))
    }
}

} // verus!
