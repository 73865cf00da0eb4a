use vstd::prelude::*;

use http::header::{HeaderName, HeaderValue};
use http::HeaderMap;

verus! {

#[verifier::external_type_specification]
#[verifier::external_body]
#[verifier::reject_recursive_types(T)]
pub struct ExHeaderMap<T>(HeaderMap<T>);

#[verifier::external_type_specification]
#[verifier::external_body]
pub struct ExHeaderValue(HeaderValue);

/// What a header map holds: for each (lower-case) header name, its values in
/// order.
pub uninterp spec fn header_contents(m: HeaderMap<HeaderValue>) -> Map<Seq<char>, Seq<Seq<u8>>>;

/// The names of a header map's entries, in the map's iteration order.
pub uninterp spec fn header_names(m: HeaderMap<HeaderValue>) -> Seq<Seq<char>>;

/// The number of names up to which a map can take one more insertion: below
/// it, `HeaderMap` never needs to double a table already at its largest size
/// (`1 << 15` slots), which happens at the earliest once five times the
/// number of entries reaches that size.
pub const MAX_HEADER_NAMES: usize = 6554;

/// No ASCII upper-case letter in the name.
pub open spec fn is_lower_name(s: Seq<char>) -> bool {
    forall|i: int| 0 <= i < s.len() ==> !('A' <= #[trigger] s[i] && s[i] <= 'Z')
}

/// The name with its ASCII letters in lower case.
pub open spec fn ascii_lower(s: Seq<char>) -> Seq<char> {
    s.map_values(|c: char| if 'A' <= c && c <= 'Z' { ((c as u8) + 32) as char } else { c })
}

/// The names list each key of the contents once, in lower case.
pub open spec fn consistent(contents: Map<Seq<char>, Seq<Seq<u8>>>, names: Seq<Seq<char>>) -> bool {
    &&& names.no_duplicates()
    &&& contents.dom() == names.to_set()
    &&& forall|i: int| 0 <= i < names.len() ==> is_lower_name(#[trigger] names[i])
}

/// A byte that `HeaderName::from_static` takes as it stands: a lower-case
/// letter, a digit or '-'.
pub open spec fn is_name_char(c: char) -> bool {
    ('a' <= c && c <= 'z') || ('0' <= c && c <= '9') || c == '-'
}

pub open spec fn valid_static_name(s: Seq<char>) -> bool {
    0 < s.len() <= 65535 && forall|i: int| 0 <= i < s.len() ==> #[trigger] is_name_char(s[i])
}

/// A character that `HeaderValue::from_static` accepts: visible ASCII or tab.
pub open spec fn is_value_char(c: char) -> bool {
    (' ' <= c && c <= '~') || c == '\t'
}

pub open spec fn valid_static_value(s: Seq<char>) -> bool {
    forall|i: int| 0 <= i < s.len() ==> #[trigger] is_value_char(s[i])
}

/// The bytes of an ASCII string.
pub open spec fn ascii_bytes(s: Seq<char>) -> Seq<u8> {
    s.map_values(|c: char| c as u8)
}

/// Relies on `HeaderMap::insert` with `HeaderName::from_static` and
/// `HeaderValue::from_static`: the name then holds the given value alone, and
/// every other name keeps its values; a name already present keeps its place
/// among the entries, a new one comes last. Both `from_static` calls accept
/// the strings that `requires` admits, and below `MAX_HEADER_NAMES` names the
/// map always has room.
#[verifier::external_body]
fn insert_static(map: &mut HeaderMap<HeaderValue>, name: &'static str, value: &'static str)
    requires
        valid_static_name(name@),
        valid_static_value(value@),
        header_names(*old(map)).len() < MAX_HEADER_NAMES,
    ensures
        header_contents(*final(map)) == header_contents(*old(map)).insert(
            name@,
            seq![ascii_bytes(value@)],
        ),
        header_names(*final(map)) == if header_names(*old(map)).contains(name@) {
            header_names(*old(map))
        } else {
            header_names(*old(map)).push(name@)
        },
{
    map.insert(HeaderName::from_static(name), HeaderValue::from_static(value));
}

/// `n` counts the names of a map whose contents and names are `contents` and
/// `names`.
pub open spec fn counts_names(
    contents: Map<Seq<char>, Seq<Seq<u8>>>,
    names: Seq<Seq<char>>,
    n: usize,
) -> bool {
    consistent(contents, names) && n == names.len()
}

/// Relies on `HeaderMap::keys_len`: the number of entries, one for each
/// distinct name; `HeaderName::as_str` is always lower case.
#[verifier::external_body]
fn keys_len(map: &HeaderMap<HeaderValue>) -> (r: usize)
    ensures
        counts_names(header_contents(*map), header_names(*map), r),
{
    map.keys_len()
}

/// Whether the map can take `extra` more names: when it returns true, the
/// map's names and contents agree and there is room for them.
pub fn has_room(map: &HeaderMap<HeaderValue>, extra: usize) -> (r: bool)
    ensures
        r == (header_names(*map).len() + extra < MAX_HEADER_NAMES),
        r ==> consistent(header_contents(*map), header_names(*map)),
{
    let n = keys_len(map);
    n < MAX_HEADER_NAMES && extra < MAX_HEADER_NAMES - n
}

/// A template entry: a header name and the literal value it is given.
pub type TemplateEntry = (&'static str, &'static str);

pub open spec fn template_view(t: Seq<TemplateEntry>) -> Seq<(Seq<char>, Seq<char>)> {
    t.map_values(|e: TemplateEntry| (e.0@, e.1@))
}

/// A template of at most 64 entries, each name and value accepted by the map,
/// no name twice.
pub open spec fn valid_template(t: Seq<(Seq<char>, Seq<char>)>) -> bool {
    &&& t.len() <= 64
    &&& forall|i: int|
        0 <= i < t.len() ==> valid_static_name(#[trigger] t[i].0) && valid_static_value(t[i].1)
    &&& forall|i: int, j: int| 0 <= i < t.len() && 0 <= j < t.len() && i != j ==> t[i].0 != t[j].0
}

/// The caller's headers with each template entry set in turn, replacing
/// whatever the caller gave for that name.
pub open spec fn overlay(m: Map<Seq<char>, Seq<Seq<u8>>>, t: Seq<(Seq<char>, Seq<char>)>) -> Map<
    Seq<char>,
    Seq<Seq<u8>>,
>
    decreases t.len(),
{
    if t.len() == 0 {
        m
    } else {
        overlay(m, t.drop_last()).insert(t.last().0, seq![ascii_bytes(t.last().1)])
    }
}

/// The order of names after the merge: the caller's names where they stood,
/// then each template name the caller did not have, in template order.
pub open spec fn merged_names(ns: Seq<Seq<char>>, t: Seq<(Seq<char>, Seq<char>)>) -> Seq<
    Seq<char>,
>
    decreases t.len(),
{
    if t.len() == 0 {
        ns
    } else {
        let p = merged_names(ns, t.drop_last());
        if p.contains(t.last().0) {
            p
        } else {
            p.push(t.last().0)
        }
    }
}

proof fn lemma_merged_len_prefix(ns: Seq<Seq<char>>, t: Seq<(Seq<char>, Seq<char>)>, i: int)
    requires
        0 <= i <= t.len(),
    ensures
        merged_names(ns, t.subrange(0, i)).len() <= merged_names(ns, t).len(),
    decreases t.len() - i,
{
    if i < t.len() {
        lemma_merged_len_prefix(ns, t, i + 1);
        assert(t.subrange(0, i + 1).drop_last() =~= t.subrange(0, i));
    } else {
        assert(t.subrange(0, i) =~= t);
    }
}

proof fn lemma_insert_keeps_consistent(
    c: Map<Seq<char>, Seq<Seq<u8>>>,
    ns: Seq<Seq<char>>,
    name: Seq<char>,
    v: Seq<Seq<u8>>,
)
    requires
        consistent(c, ns),
        valid_static_name(name),
    ensures
        consistent(c.insert(name, v), if ns.contains(name) { ns } else { ns.push(name) }),
{
    assert(is_lower_name(name)) by {
        assert forall|i: int| 0 <= i < name.len() implies !('A' <= #[trigger] name[i] && name[i]
            <= 'Z') by {
            assert(is_name_char(name[i]));
        }
    }
    if ns.contains(name) {
        assert(c.insert(name, v).dom() =~= ns.to_set());
    } else {
        let q = ns.push(name);
        assert(q.to_set() =~= ns.to_set().insert(name)) by {
            assert forall|x| q.to_set().contains(x) <==> ns.to_set().insert(name).contains(x) by {
                if q.contains(x) && x != name {
                    let k = choose|k: int| 0 <= k < q.len() && q[k] == x;
                    assert(k < ns.len());
                    assert(ns[k] == x);
                }
                if ns.contains(x) {
                    let k = choose|k: int| 0 <= k < ns.len() && ns[k] == x;
                    assert(q[k] == x);
                }
                if x == name {
                    assert(q[ns.len() as int] == x);
                }
            }
        }
        assert(c.insert(name, v).dom() =~= q.to_set());
        assert(q.no_duplicates()) by {
            assert forall|i: int, j: int| 0 <= i < q.len() && 0 <= j < q.len() && i != j implies q[i]
                != q[j] by {
                if i < ns.len() && j < ns.len() {
                } else if i < ns.len() {
                    assert(ns.contains(q[i]));
                } else if j < ns.len() {
                    assert(ns.contains(q[j]));
                }
            }
        }
        assert forall|i: int| 0 <= i < q.len() implies is_lower_name(#[trigger] q[i]) by {
            if i < ns.len() {
                assert(q[i] == ns[i]);
            }
        }
    }
}

/// Sets each template header on the caller's map, in template order. The
/// template is authoritative for its names; other headers pass through, and
/// every name keeps its place.
pub fn apply_template(headers: HeaderMap<HeaderValue>, template: &Vec<TemplateEntry>) -> (r:
    HeaderMap<HeaderValue>)
    requires
        valid_template(template_view(template@)),
        consistent(header_contents(headers), header_names(headers)),
        merged_names(header_names(headers), template_view(template@)).len() < MAX_HEADER_NAMES,
    ensures
        header_contents(r) == overlay(header_contents(headers), template_view(template@)),
        header_names(r) == merged_names(header_names(headers), template_view(template@)),
        consistent(header_contents(r), header_names(r)),
{
    let mut map = headers;
    let ghost start = header_contents(headers);
    let ghost start_names = header_names(headers);
    let ghost tv = template_view(template@);
    let mut i: usize = 0;
    assert(tv.subrange(0, 0) =~= Seq::<(Seq<char>, Seq<char>)>::empty());
    while i < template.len()
        invariant
            i <= template@.len(),
            tv == template_view(template@),
            valid_template(tv),
            merged_names(start_names, tv).len() < MAX_HEADER_NAMES,
            header_contents(map) == overlay(start, tv.subrange(0, i as int)),
            header_names(map) == merged_names(start_names, tv.subrange(0, i as int)),
            consistent(header_contents(map), header_names(map)),
        decreases template.len() - i,
    {
        let (name, value) = template[i];
        assert(tv[i as int] == (name@, value@));
        assert(valid_static_name(tv[i as int].0));
        proof {
            lemma_merged_len_prefix(start_names, tv, i + 1);
            assert(tv.subrange(0, i + 1 as int).drop_last() =~= tv.subrange(0, i as int));
            lemma_insert_keeps_consistent(
                header_contents(map),
                header_names(map),
                name@,
                seq![ascii_bytes(value@)],
            );
        }
        insert_static(&mut map, name, value);
        i += 1;
    }
    assert(tv.subrange(0, template@.len() as int) =~= tv);
    map
}

#[verifier::spinoff_prover]
proof fn lemma_template_prefix(t: Seq<(Seq<char>, Seq<char>)>)
    requires
        valid_template(t),
        t.len() > 0,
    ensures
        valid_template(t.drop_last()),
{
    let p = t.drop_last();
    assert forall|i: int| 0 <= i < p.len() implies valid_static_name(#[trigger] p[i].0)
        && valid_static_value(p[i].1) by {
        assert(p[i] == t[i]);
        assert(0 <= i < t.len());
        assert(valid_static_name(t[i].0));
        assert(valid_static_value(t[i].1));
    }
    assert forall|i: int, j: int| 0 <= i < p.len() && 0 <= j < p.len() && i != j implies p[i].0
        != p[j].0 by {
        assert(p[i] == t[i]);
        assert(p[j] == t[j]);
    }
}

/// A name of the template ends up with the template's value alone, whatever
/// the caller gave for it.
pub proof fn lemma_template_wins(
    m: Map<Seq<char>, Seq<Seq<u8>>>,
    t: Seq<(Seq<char>, Seq<char>)>,
    k: int,
)
    requires
        valid_template(t),
        0 <= k < t.len(),
    ensures
        overlay(m, t).contains_key(t[k].0),
        overlay(m, t)[t[k].0] == seq![ascii_bytes(t[k].1)],
    decreases t.len(),
{
    if k < t.len() - 1 {
        let p = t.drop_last();
        lemma_template_prefix(t);
        assert(p[k] == t[k]);
        lemma_template_wins(m, p, k);
        assert(t.last().0 != t[k].0);
    }
}

/// A header whose name the template does not hold passes through unchanged.
pub proof fn lemma_caller_header_kept(
    m: Map<Seq<char>, Seq<Seq<u8>>>,
    t: Seq<(Seq<char>, Seq<char>)>,
    name: Seq<char>,
)
    requires
        forall|k: int| 0 <= k < t.len() ==> (#[trigger] t[k]).0 != name,
    ensures
        overlay(m, t).contains_key(name) == m.contains_key(name),
        overlay(m, t).contains_key(name) ==> overlay(m, t)[name] == m[name],
    decreases t.len(),
{
    if t.len() > 0 {
        let p = t.drop_last();
        assert forall|k: int| 0 <= k < p.len() implies (#[trigger] p[k]).0 != name by {
            assert(p[k] == t[k]);
        }
        lemma_caller_header_kept(m, p, name);
        assert(t[t.len() - 1].0 != name);
    }
}

pub open spec fn template_names(t: Seq<(Seq<char>, Seq<char>)>) -> Seq<Seq<char>> {
    t.map_values(|e: (Seq<char>, Seq<char>)| e.0)
}

/// The caller's names open the merged order, as they stood: the merge only
/// appends.
pub proof fn lemma_merged_keeps_caller_order(ns: Seq<Seq<char>>, t: Seq<(Seq<char>, Seq<char>)>)
    ensures
        merged_names(ns, t).len() >= ns.len(),
        merged_names(ns, t).subrange(0, ns.len() as int) == ns,
    decreases t.len(),
{
    if t.len() > 0 {
        lemma_merged_keeps_caller_order(ns, t.drop_last());
        let p = merged_names(ns, t.drop_last());
        assert(p.push(t.last().0).subrange(0, ns.len() as int) =~= p.subrange(0, ns.len() as int));
    }
}

/// When the caller has none of the template's names, the merged order is the
/// caller's names followed by the template's, in template order.
pub proof fn lemma_merged_appends(ns: Seq<Seq<char>>, t: Seq<(Seq<char>, Seq<char>)>)
    requires
        valid_template(t),
        forall|k: int| 0 <= k < t.len() ==> !ns.contains(#[trigger] t[k].0),
    ensures
        merged_names(ns, t) == ns + template_names(t),
    decreases t.len(),
{
    if t.len() > 0 {
        let p = t.drop_last();
        lemma_template_prefix(t);
        assert forall|k: int| 0 <= k < p.len() implies !ns.contains(#[trigger] p[k].0) by {
            assert(p[k] == t[k]);
        }
        lemma_merged_appends(ns, p);
        let last = t.last().0;
        assert(!ns.contains(last));
        assert(!(ns + template_names(p)).contains(last)) by {
            if (ns + template_names(p)).contains(last) {
                let j = choose|j: int|
                    0 <= j < (ns + template_names(p)).len() && (ns + template_names(p))[j] == last;
                if j < ns.len() {
                    assert(ns[j] == last);
                } else {
                    assert(p[j - ns.len()] == t[j - ns.len()]);
                }
            }
        }
        assert((ns + template_names(p)).push(last) =~= ns + template_names(t));
    }
}

proof fn lemma_merged_contains_template(ns: Seq<Seq<char>>, t: Seq<(Seq<char>, Seq<char>)>, k: int)
    requires
        0 <= k < t.len(),
    ensures
        merged_names(ns, t).contains(t[k].0),
    decreases t.len(),
{
    let p = t.drop_last();
    let mp = merged_names(ns, p);
    if k < t.len() - 1 {
        assert(p[k] == t[k]);
        lemma_merged_contains_template(ns, p, k);
        let j = choose|j: int| 0 <= j < mp.len() && mp[j] == t[k].0;
        assert(mp.push(t.last().0)[j] == t[k].0);
    } else if !mp.contains(t.last().0) {
        assert(mp.push(t.last().0)[mp.len() as int] == t[k].0);
    }
}

proof fn lemma_merged_fixed(ns: Seq<Seq<char>>, t: Seq<(Seq<char>, Seq<char>)>)
    requires
        forall|k: int| 0 <= k < t.len() ==> ns.contains(#[trigger] t[k].0),
    ensures
        merged_names(ns, t) == ns,
    decreases t.len(),
{
    if t.len() > 0 {
        let p = t.drop_last();
        assert forall|k: int| 0 <= k < p.len() implies ns.contains(#[trigger] p[k].0) by {
            assert(p[k] == t[k]);
        }
        lemma_merged_fixed(ns, p);
        assert(ns.contains(t[t.len() - 1].0));
    }
}

/// Merging the template a second time changes no name, no value and no
/// position.
pub proof fn lemma_merge_idempotent(
    m: Map<Seq<char>, Seq<Seq<u8>>>,
    ns: Seq<Seq<char>>,
    t: Seq<(Seq<char>, Seq<char>)>,
)
    requires
        valid_template(t),
    ensures
        overlay(overlay(m, t), t) == overlay(m, t),
        merged_names(merged_names(ns, t), t) == merged_names(ns, t),
{
    let once = overlay(m, t);
    let twice = overlay(once, t);
    assert forall|key| #[trigger] twice.contains_key(key) == once.contains_key(key) && (
    twice.contains_key(key) ==> twice[key] == once[key]) by {
        if exists|k: int| 0 <= k < t.len() && t[k].0 == key {
            let k = choose|k: int| 0 <= k < t.len() && t[k].0 == key;
            lemma_template_wins(m, t, k);
            lemma_template_wins(once, t, k);
        } else {
            lemma_caller_header_kept(once, t, key);
        }
    }
    assert(twice =~= once);
    assert forall|k: int| 0 <= k < t.len() implies merged_names(ns, t).contains(#[trigger] t[k].0) by {
        lemma_merged_contains_template(ns, t, k);
    }
    lemma_merged_fixed(merged_names(ns, t), t);
}

/// In a map whose names are consistent, no name differs from a template
/// name in letter case alone: a name equal to a template name up to ASCII
/// case is that template name.
pub proof fn lemma_no_case_twins(
    c: Map<Seq<char>, Seq<Seq<u8>>>,
    ns: Seq<Seq<char>>,
    t: Seq<(Seq<char>, Seq<char>)>,
    i: int,
    k: int,
)
    requires
        consistent(c, ns),
        valid_template(t),
        0 <= i < ns.len(),
        0 <= k < t.len(),
        ascii_lower(ns[i]) == ascii_lower(t[k].0),
    ensures
        ns[i] == t[k].0,
{
    let a = ns[i];
    let b = t[k].0;
    assert(is_lower_name(a));
    assert(valid_static_name(b));
    assert(ascii_lower(a) =~= a);
    assert(ascii_lower(b) =~= b) by {
        assert forall|j: int| 0 <= j < b.len() implies ascii_lower(b)[j] == b[j] by {
            assert(is_name_char(b[j]));
        }
    }
}

/// The merge adds at most one name per template entry.
pub proof fn lemma_merged_len_bound(ns: Seq<Seq<char>>, t: Seq<(Seq<char>, Seq<char>)>)
    ensures
        merged_names(ns, t).len() <= ns.len() + t.len(),
    decreases t.len(),
{
    if t.len() > 0 {
        lemma_merged_len_bound(ns, t.drop_last());
    }
}

} // verus!
