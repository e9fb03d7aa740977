//! What holds of the path model: how names, joins and renderings go
//! together, and what the mapping of local entries to remote paths
//! guarantees.

use crate::path::{
    all_names, base_name, components, descend, first_sep, is_absolute, is_name, is_normal, join,
    mapped, parent_of, push_name, remainder, remote_path, render, strips, SEPARATOR,
};
use vstd::prelude::*;

verus! {

// ---------------------------------------------------------------------------
// Facts about the model
// ---------------------------------------------------------------------------

/// `first_sep` stops at the first separator and nowhere before it.
pub proof fn lemma_first_sep(p: Seq<char>)
    ensures
        first_sep(p) <= p.len(),
        forall|j: int| 0 <= j < first_sep(p) ==> p[j] != SEPARATOR,
        first_sep(p) < p.len() ==> p[first_sep(p) as int] == SEPARATOR,
    decreases p.len(),
{
    if p.len() == 0 || p[0] == SEPARATOR {
    } else {
        let q = p.drop_first();
        lemma_first_sep(q);
        assert forall|j: int| 0 <= j < first_sep(p) implies p[j] != SEPARATOR by {
            if j > 0 {
                assert(p[j] == q[j - 1]);
            }
        }
        if first_sep(p) < p.len() {
            assert(p[first_sep(p) as int] == q[first_sep(q) as int]);
        }
    }
}

/// A position that follows only non-separators, and is the end of `p` or a
/// separator, is `first_sep(p)`.
pub proof fn lemma_first_sep_is(p: Seq<char>, k: int)
    requires
        0 <= k <= p.len(),
        forall|j: int| 0 <= j < k ==> p[j] != SEPARATOR,
        k == p.len() || p[k] == SEPARATOR,
    ensures
        first_sep(p) == k,
{
    lemma_first_sep(p);
    let f = first_sep(p) as int;
    if f < k {
        assert(p[f] == SEPARATOR);
    } else if f > k {
        assert(p[k] != SEPARATOR);
    }
}

/// Every component is a name.
pub proof fn lemma_components_are_names(p: Seq<char>)
    ensures
        all_names(components(p)),
    decreases p.len(),
{
    if p.len() > 0 {
        lemma_first_sep(p);
        let k = first_sep(p) as int;
        let tail = p.subrange(k + 1, p.len() as int);
        let rest = if k < p.len() {
            components(tail)
        } else {
            Seq::empty()
        };
        if k < p.len() {
            lemma_components_are_names(tail);
        }
        if k > 0 {
            let head = p.subrange(0, k);
            assert(is_name(head));
            let all = seq![head] + rest;
            assert forall|i: int| 0 <= i < all.len() implies is_name(#[trigger] all[i]) by {
                if i > 0 {
                    assert(all[i] == rest[i - 1]);
                }
            }
        }
    }
}

/// A name is its own single component.
pub proof fn lemma_components_of_name(c: Seq<char>)
    requires
        is_name(c),
    ensures
        components(c) == seq![c],
{
    lemma_first_sep_is(c, c.len() as int);
    assert(c.subrange(0, c.len() as int) == c);
    assert(seq![c] + Seq::<Seq<char>>::empty() == seq![c]);
}

/// Two texts that meet at a separator (or one of which is empty) contribute
/// their components side by side.
pub proof fn lemma_components_concat(a: Seq<char>, b: Seq<char>)
    requires
        a.len() == 0 || b.len() == 0 || a.last() == SEPARATOR || b[0] == SEPARATOR,
    ensures
        components(a + b) == components(a) + components(b),
    decreases a.len(),
{
    let ab = a + b;
    if a.len() == 0 {
        assert(ab == b);
        assert(components(a) + components(b) == components(b));
    } else if b.len() == 0 {
        assert(ab == a);
        assert(components(a) + components(b) == components(a));
    } else {
        lemma_first_sep(a);
        let k = first_sep(a) as int;
        if k < a.len() {
            // the first separator of `a` is the first separator of `a + b`
            assert forall|j: int| 0 <= j < k implies ab[j] != SEPARATOR by {
                assert(ab[j] == a[j]);
            }
            assert(ab[k] == a[k]);
            lemma_first_sep_is(ab, k);
            let a_tail = a.subrange(k + 1, a.len() as int);
            assert(ab.subrange(k + 1, ab.len() as int) == a_tail + b);
            assert(ab.subrange(0, k) == a.subrange(0, k));
            if a_tail.len() > 0 {
                assert(a_tail.last() == a.last());
            }
            lemma_components_concat(a_tail, b);
            if k == 0 {
            } else {
                let head = seq![a.subrange(0, k)];
                assert(head + (components(a_tail) + components(b)) == (head + components(a_tail))
                    + components(b));
            }
        } else {
            // `a` is one name, so `b` starts with the separator
            assert(a.last() != SEPARATOR);
            assert(b[0] == SEPARATOR);
            assert forall|j: int| 0 <= j < k implies ab[j] != SEPARATOR by {
                assert(ab[j] == a[j]);
            }
            assert(ab[k] == b[0]);
            lemma_first_sep_is(ab, k);
            assert(ab.subrange(0, k) == a);
            assert(a.subrange(0, k) == a);
            let b_tail = b.subrange(1, b.len() as int);
            assert(ab.subrange(k + 1, ab.len() as int) == b_tail);
            lemma_first_sep_is(b, 0);
            assert(components(b) == components(b_tail));
            assert(components(a) == seq![a] + Seq::<Seq<char>>::empty());
            assert(seq![a] + Seq::<Seq<char>>::empty() == seq![a]);
        }
    }
}

/// A lone separator has no components.
pub proof fn lemma_components_of_separator()
    ensures
        components(seq![SEPARATOR]) == Seq::<Seq<char>>::empty(),
{
    let s = seq![SEPARATOR];
    lemma_first_sep_is(s, 0);
    assert(components(s.subrange(1, 1)) == Seq::<Seq<char>>::empty());
}

/// A list of names without its last name is a list of names, and the last
/// is a name.
pub proof fn lemma_names_without_last(parts: Seq<Seq<char>>)
    requires
        all_names(parts),
        parts.len() > 0,
    ensures
        all_names(parts.drop_last()),
        is_name(parts.last()),
{
    let init = parts.drop_last();
    assert forall|i: int| 0 <= i < init.len() implies is_name(#[trigger] init[i]) by {
        assert(init[i] == parts[i]);
    }
}

/// Joining names and reading the components back gives the names again.
pub proof fn lemma_components_of_join(parts: Seq<Seq<char>>)
    requires
        all_names(parts),
    ensures
        components(join(parts)) == parts,
    decreases parts.len(),
{
    if parts.len() == 0 {
    } else if parts.len() == 1 {
        lemma_components_of_name(parts[0]);
        assert(seq![parts[0]] == parts);
    } else {
        let init = parts.drop_last();
        let last = parts.last();
        lemma_names_without_last(parts);
        lemma_components_of_join(init);
        lemma_components_of_separator();
        lemma_components_concat(join(init), seq![SEPARATOR]);
        lemma_components_concat(join(init) + seq![SEPARATOR], last);
        lemma_components_of_name(last);
        assert(init + Seq::<Seq<char>>::empty() == init);
        assert(init + seq![last] == parts);
    }
}

/// Rendering names and reading the components back gives the names again.
pub proof fn lemma_components_of_render(absolute: bool, parts: Seq<Seq<char>>)
    requires
        all_names(parts),
    ensures
        components(render(absolute, parts)) == parts,
{
    lemma_components_of_join(parts);
    if absolute {
        lemma_components_of_separator();
        lemma_components_concat(seq![SEPARATOR], join(parts));
        assert(Seq::<Seq<char>>::empty() + parts == parts);
    }
}

/// The join of names starts with no separator, so a rendering is absolute
/// exactly when it was asked to be (a relative rendering of no names is
/// empty).
pub proof fn lemma_render_absolute(absolute: bool, parts: Seq<Seq<char>>)
    requires
        all_names(parts),
    ensures
        is_absolute(render(absolute, parts)) == absolute,
        parts.len() > 0 ==> join(parts).len() > 0 && join(parts)[0] != SEPARATOR,
        parts.len() > 0 ==> join(parts).last() != SEPARATOR,
    decreases parts.len(),
{
    if parts.len() == 0 {
    } else if parts.len() == 1 {
        assert(is_name(parts[0]));
    } else {
        let init = parts.drop_last();
        lemma_names_without_last(parts);
        lemma_render_absolute(absolute, init);
        assert(is_name(parts.last()));
        let j = join(parts);
        assert(j[0] == join(init)[0]);
        assert(j.last() == parts.last().last());
    }
}

/// Pushing a name adds it as the last component and leaves the starting
/// place alone.
pub proof fn lemma_push_name(p: Seq<char>, name: Seq<char>)
    requires
        is_name(name),
    ensures
        components(push_name(p, name)) == components(p).push(name),
        is_absolute(push_name(p, name)) == is_absolute(p),
{
    lemma_components_of_name(name);
    if p.len() == 0 || p.last() == SEPARATOR {
        lemma_components_concat(p, name);
    } else {
        lemma_components_of_separator();
        lemma_components_concat(p, seq![SEPARATOR]);
        lemma_components_concat(p + seq![SEPARATOR], name);
        assert(components(p) + Seq::<Seq<char>>::empty() == components(p));
    }
    assert(components(p) + seq![name] == components(p).push(name));
}

/// Descending adds the names as the last components and leaves the starting
/// place alone.
pub proof fn lemma_descend(p: Seq<char>, names: Seq<Seq<char>>)
    requires
        all_names(names),
    ensures
        components(descend(p, names)) == components(p) + names,
        is_absolute(descend(p, names)) == is_absolute(p),
    decreases names.len(),
{
    if names.len() == 0 {
        assert(components(p) + names == components(p));
    } else {
        let init = names.drop_last();
        lemma_names_without_last(names);
        lemma_descend(p, init);
        assert(is_name(names.last()));
        lemma_push_name(descend(p, init), names.last());
        assert((components(p) + init).push(names.last()) == components(p) + names);
    }
}

/// Rendering one name more is pushing that name onto the rendering.
pub proof fn lemma_render_push(absolute: bool, parts: Seq<Seq<char>>, name: Seq<char>)
    requires
        all_names(parts),
        is_name(name),
    ensures
        render(absolute, parts.push(name)) == push_name(render(absolute, parts), name),
{
    let more = parts.push(name);
    assert(more.drop_last() == parts);
    lemma_render_absolute(absolute, parts);
    if parts.len() == 0 {
        assert(join(parts) == Seq::<char>::empty());
        assert(join(more) == name);
        if absolute {
            assert(seq![SEPARATOR] + Seq::<char>::empty() == seq![SEPARATOR]);
        } else {
            assert(Seq::<char>::empty() + name == name);
        }
    } else {
        assert(join(more) == join(parts) + seq![SEPARATOR] + name);
        let r = render(absolute, parts);
        assert(r.last() == join(parts).last());
        if absolute {
            assert(seq![SEPARATOR] + (join(parts) + seq![SEPARATOR] + name) == (seq![SEPARATOR]
                + join(parts)) + seq![SEPARATOR] + name);
        }
    }
}

/// Below a normal path, rendering the extended list of names is descending
/// from the path's own text.
pub proof fn lemma_render_below_normal(p: Seq<char>, names: Seq<Seq<char>>)
    requires
        is_normal(p),
        all_names(names),
    ensures
        render(is_absolute(p), components(p) + names) == descend(p, names),
    decreases names.len(),
{
    if names.len() == 0 {
        assert(components(p) + names == components(p));
    } else {
        let init = names.drop_last();
        lemma_names_without_last(names);
        lemma_render_below_normal(p, init);
        lemma_components_are_names(p);
        lemma_all_names_concat(components(p), init);
        assert(is_name(names.last()));
        lemma_render_push(is_absolute(p), components(p) + init, names.last());
        assert((components(p) + init).push(names.last()) == components(p) + names);
    }
}

/// Two lists of names, one after the other, are a list of names.
pub proof fn lemma_all_names_concat(a: Seq<Seq<char>>, b: Seq<Seq<char>>)
    requires
        all_names(a),
        all_names(b),
    ensures
        all_names(a + b),
{
    let ab = a + b;
    assert forall|i: int| 0 <= i < ab.len() implies is_name(#[trigger] ab[i]) by {
        if i < a.len() {
            assert(ab[i] == a[i]);
        } else {
            assert(ab[i] == b[i - a.len()]);
        }
    }
}

/// The parent has all the names but the last, and starts where the path
/// starts whenever it has a name left.
pub proof fn lemma_parent(p: Seq<char>)
    ensures
        components(p).len() > 0 ==> components(parent_of(p)) == components(p).drop_last(),
        components(p).len() == 0 ==> components(parent_of(p)).len() == 0,
        components(parent_of(p)).len() > 0 ==> is_absolute(parent_of(p)) == is_absolute(p),
        is_normal(parent_of(p)),
{
    let parts = components(p);
    if parts.len() > 0 {
        let init = parts.drop_last();
        lemma_components_are_names(p);
        lemma_names_without_last(parts);
        lemma_components_of_render(is_absolute(p), init);
        lemma_render_absolute(is_absolute(p), init);
    }
}

/// What is left of an entry below a prefix is a list of names, and so is
/// what it is joined onto.
pub proof fn lemma_remote_names(entry: Seq<char>, prefix: Seq<char>, destination: Seq<char>)
    requires
        strips(entry, prefix),
    ensures
        all_names(remainder(entry, prefix)),
        all_names(components(destination) + remainder(entry, prefix)),
        components(entry) == components(prefix) + remainder(entry, prefix),
        components(remote_path(entry, prefix, destination)) == components(destination) + remainder(
            entry,
            prefix,
        ),
        is_absolute(remote_path(entry, prefix, destination)) == is_absolute(destination),
        is_normal(remote_path(entry, prefix, destination)),
{
    let e = components(entry);
    let rest = remainder(entry, prefix);
    lemma_components_are_names(entry);
    lemma_components_are_names(destination);
    assert forall|i: int| 0 <= i < rest.len() implies is_name(#[trigger] rest[i]) by {
        assert(rest[i] == e[i + components(prefix).len()]);
    }
    lemma_all_names_concat(components(destination), rest);
    lemma_components_of_render(is_absolute(destination), components(destination) + rest);
    lemma_render_absolute(is_absolute(destination), components(destination) + rest);
    assert(e == e.subrange(0, components(prefix).len() as int) + rest);
}

// ---------------------------------------------------------------------------
// What the mapping guarantees
// ---------------------------------------------------------------------------

/// An entry that lies `below` a source root, mapped with the root's parent as
/// prefix, lands under the destination with the root's own name first and
/// the names below it after: `S/a/b` goes to `D/<name of S>/a/b`, and `S`
/// itself to `D/<name of S>`. For a normal destination the result is,
/// letter for letter, the destination's text descended by those names.
pub proof fn theorem_hierarchy_is_kept(
    source: Seq<char>,
    destination: Seq<char>,
    below: Seq<Seq<char>>,
)
    requires
        all_names(below),
    ensures
        strips(descend(source, below), parent_of(source)),
        remainder(descend(source, below), parent_of(source)) == base_name(source) + below,
        remote_path(descend(source, below), parent_of(source), destination) == render(
            is_absolute(destination),
            components(destination) + (base_name(source) + below),
        ),
        is_normal(destination) ==> remote_path(
            descend(source, below),
            parent_of(source),
            destination,
        ) == descend(destination, base_name(source) + below),
{
    let entry = descend(source, below);
    let prefix = parent_of(source);
    let src = components(source);
    lemma_descend(source, below);
    lemma_parent(source);
    lemma_components_are_names(source);
    if src.len() == 0 {
        assert(components(entry).subrange(0, 0) == components(prefix));
        assert(remainder(entry, prefix) == components(entry));
        assert(src + below == base_name(source) + below);
    } else {
        let init = src.drop_last();
        assert(src == init + seq![src.last()]);
        assert(src + below == init + (seq![src.last()] + below));
        assert((init + (seq![src.last()] + below)).subrange(0, init.len() as int) == init);
        assert((init + (seq![src.last()] + below)).subrange(
            init.len() as int,
            (src + below).len() as int,
        ) == seq![src.last()] + below);
    }
    if is_normal(destination) {
        assert(all_names(base_name(source))) by {
            if src.len() > 0 {
                assert(is_name(src.last()));
            }
        }
        lemma_all_names_concat(base_name(source), below);
        lemma_render_below_normal(destination, base_name(source) + below);
    }
}

/// Two entries below the same prefix that are different paths go to
/// different remote paths.
pub proof fn theorem_distinct_paths_stay_distinct(
    first: Seq<char>,
    second: Seq<char>,
    prefix: Seq<char>,
    destination: Seq<char>,
)
    requires
        strips(first, prefix),
        strips(second, prefix),
        components(first) != components(second),
    ensures
        remote_path(first, prefix, destination) != remote_path(second, prefix, destination),
        mapped(first, prefix, destination) != mapped(second, prefix, destination),
{
    let d = components(destination);
    let r1 = remainder(first, prefix);
    let r2 = remainder(second, prefix);
    lemma_remote_names(first, prefix, destination);
    lemma_remote_names(second, prefix, destination);
    if remote_path(first, prefix, destination) == remote_path(second, prefix, destination) {
        assert(d + r1 == d + r2);
        assert(r1 == (d + r1).subrange(d.len() as int, (d + r1).len() as int));
        assert(r2 == (d + r2).subrange(d.len() as int, (d + r2).len() as int));
        assert(components(first) == components(second));
    }
}

/// On normal texts that start from the same place the mapping is injective
/// letter for letter: different texts below the same prefix go to different
/// remote texts.
pub proof fn theorem_mapping_is_injective(
    first: Seq<char>,
    second: Seq<char>,
    prefix: Seq<char>,
    destination: Seq<char>,
)
    requires
        is_normal(first),
        is_normal(second),
        is_absolute(first) == is_absolute(second),
        strips(first, prefix),
        strips(second, prefix),
        first != second,
    ensures
        mapped(first, prefix, destination) != mapped(second, prefix, destination),
{
    theorem_distinct_paths_stay_distinct(first, second, prefix, destination);
}

/// The mapping keeps the hierarchy in both directions: one entry lies at or
/// above another exactly when its remote path lies at or above the other's.
pub proof fn theorem_prefixes_are_kept(
    first: Seq<char>,
    second: Seq<char>,
    prefix: Seq<char>,
    destination: Seq<char>,
)
    requires
        strips(first, prefix),
        strips(second, prefix),
    ensures
        components(first).is_prefix_of(components(second)) <==> components(
            remote_path(first, prefix, destination),
        ).is_prefix_of(components(remote_path(second, prefix, destination))),
{
    let p = components(prefix);
    let d = components(destination);
    let r1 = remainder(first, prefix);
    let r2 = remainder(second, prefix);
    lemma_remote_names(first, prefix, destination);
    lemma_remote_names(second, prefix, destination);
    lemma_prefix_shift(p, r1, r2);
    lemma_prefix_shift(d, r1, r2);
}

/// A common front does not change whether one list begins another.
pub proof fn lemma_prefix_shift(front: Seq<Seq<char>>, a: Seq<Seq<char>>, b: Seq<Seq<char>>)
    ensures
        (front + a).is_prefix_of(front + b) <==> a.is_prefix_of(b),
{
    let fa = front + a;
    let fb = front + b;
    if fa.is_prefix_of(fb) {
        assert(a.len() <= b.len());
        assert forall|i: int| 0 <= i < a.len() implies a[i] == b[i] by {
            assert(fa[i + front.len()] == fb[i + front.len()]);
        }
        assert(a == b.subrange(0, a.len() as int));
    }
    if a.is_prefix_of(b) {
        assert forall|i: int| 0 <= i < fa.len() implies fa[i] == fb[i] by {
            if i >= front.len() {
                assert(a[i - front.len()] == b[i - front.len()]);
            }
        }
        assert(fa == fb.subrange(0, fa.len() as int));
    }
}

/// Whether `x` is less than `y` in the given order of names.
pub open spec fn is_lesser(
    lesser: spec_fn(Seq<char>, Seq<char>) -> bool,
    x: Seq<char>,
    y: Seq<char>,
) -> bool {
    lesser(x, y)
}

/// `a` comes before `b` in the order of a listing: at the first place where
/// they part, `a` has ended or holds the lesser name.
pub open spec fn precedes(
    lesser: spec_fn(Seq<char>, Seq<char>) -> bool,
    a: Seq<Seq<char>>,
    b: Seq<Seq<char>>,
) -> bool {
    exists|k: int| #[trigger] parts_at(lesser, a, b, k)
}

/// `a` and `b` agree on their first `k` names and part there, `a` on the
/// lesser side.
pub open spec fn parts_at(
    lesser: spec_fn(Seq<char>, Seq<char>) -> bool,
    a: Seq<Seq<char>>,
    b: Seq<Seq<char>>,
    k: int,
) -> bool {
    &&& 0 <= k <= a.len()
    &&& k < b.len()
    &&& a.subrange(0, k) == b.subrange(0, k)
    &&& (k == a.len() || is_lesser(lesser, a[k], b[k]))
}

/// The mapping keeps the order of a listing: whatever order the names are
/// compared by (no name being less than itself), one entry comes before
/// another exactly when its remote path comes before the other's.
pub proof fn theorem_order_is_kept(
    lesser: spec_fn(Seq<char>, Seq<char>) -> bool,
    first: Seq<char>,
    second: Seq<char>,
    prefix: Seq<char>,
    destination: Seq<char>,
)
    requires
        forall|x: Seq<char>| !#[trigger] is_lesser(lesser, x, x),
        strips(first, prefix),
        strips(second, prefix),
    ensures
        precedes(lesser, components(first), components(second)) <==> precedes(
            lesser,
            components(remote_path(first, prefix, destination)),
            components(remote_path(second, prefix, destination)),
        ),
{
    let r1 = remainder(first, prefix);
    let r2 = remainder(second, prefix);
    lemma_remote_names(first, prefix, destination);
    lemma_remote_names(second, prefix, destination);
    lemma_precedes_shift(lesser, components(prefix), r1, r2);
    lemma_precedes_shift(lesser, components(destination), r1, r2);
}

/// A common front does not change which of two lists comes first.
pub proof fn lemma_precedes_shift(
    lesser: spec_fn(Seq<char>, Seq<char>) -> bool,
    front: Seq<Seq<char>>,
    a: Seq<Seq<char>>,
    b: Seq<Seq<char>>,
)
    requires
        forall|x: Seq<char>| !#[trigger] is_lesser(lesser, x, x),
    ensures
        precedes(lesser, front + a, front + b) <==> precedes(lesser, a, b),
{
    let fa = front + a;
    let fb = front + b;
    let n = front.len() as int;
    if precedes(lesser, fa, fb) {
        let k = choose|k: int| #[trigger] parts_at(lesser, fa, fb, k);
        if k < n {
            assert(fa[k] == front[k] && fb[k] == front[k]);
            assert(!is_lesser(lesser, front[k], front[k]));
            assert(false);
        }
        assert forall|i: int| 0 <= i < k - n implies a[i] == b[i] by {
            assert(fa.subrange(0, k)[i + n] == fb.subrange(0, k)[i + n]);
        }
        assert(a.subrange(0, k - n) == b.subrange(0, k - n));
        if k < fa.len() {
            assert(fa[k] == a[k - n] && fb[k] == b[k - n]);
        }
        assert(parts_at(lesser, a, b, k - n));
    }
    if precedes(lesser, a, b) {
        let k = choose|k: int| #[trigger] parts_at(lesser, a, b, k);
        assert forall|i: int| 0 <= i < k + n implies fa[i] == fb[i] by {
            if i >= n {
                assert(a.subrange(0, k)[i - n] == b.subrange(0, k)[i - n]);
            }
        }
        assert(fa.subrange(0, k + n) == fb.subrange(0, k + n));
        if k < a.len() {
            assert(fa[k + n] == a[k] && fb[k + n] == b[k]);
        }
        assert(parts_at(lesser, fa, fb, k + n));
    }
}

} // verus!
