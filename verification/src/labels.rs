//! Labels, selectors and string searches used by the policies.
use vstd::prelude::*;
use crate::{LabelSelector, Labels};
use crate::text::chars_of;

verus! {

/// The characters of each key and value of a label list.
pub open spec fn labels_view(l: Seq<(String, String)>) -> Seq<(Seq<char>, Seq<char>)> {
    l.map_values(|p: (String, String)| (p.0@, p.1@))
}

/// The characters of each string of a list.
pub open spec fn strings_view(l: Seq<String>) -> Seq<Seq<char>> {
    l.map_values(|s: String| s@)
}

/// The value of the first label with key `key`.
pub open spec fn label_lookup(l: Seq<(Seq<char>, Seq<char>)>, key: Seq<char>) -> Option<Seq<char>>
    decreases l.len(),
{
    if l.len() == 0 {
        None
    } else if l[0].0 == key {
        Some(l[0].1)
    } else {
        label_lookup(l.drop_first(), key)
    }
}

/// The labels hold every key of the selector with the selector's value.
pub open spec fn selector_matches(sel: Seq<(Seq<char>, Seq<char>)>, l: Seq<(Seq<char>, Seq<char>)>) -> bool {
    forall|i: int| 0 <= i < sel.len() ==> label_lookup(l, (#[trigger] sel[i]).0) == Some(sel[i].1)
}

/// The value of the label with key `key`, if any.
pub fn get_label(labels: &Labels, key: &String) -> (r: Option<String>)
    ensures
        match r {
            Some(v) => label_lookup(labels_view(labels@), key@) == Some(v@),
            None => label_lookup(labels_view(labels@), key@) is None,
        },
{
    let ghost lv = labels_view(labels@);
    let mut i: usize = 0;
    assert(lv.subrange(0, lv.len() as int) =~= lv);
    while i < labels.len()
        invariant
            i <= labels@.len(),
            lv == labels_view(labels@),
            label_lookup(lv, key@) == label_lookup(lv.subrange(i as int, lv.len() as int), key@),
        decreases labels.len() - i,
    {
        let ghost rest = lv.subrange(i as int, lv.len() as int);
        assert(rest.drop_first() =~= lv.subrange(i + 1, lv.len() as int));
        assert(rest[0] == (labels@[i as int].0@, labels@[i as int].1@));
        if labels[i].0 == *key {
            return Some(labels[i].1.clone());
        }
        i += 1;
    }
    assert(lv.subrange(i as int, lv.len() as int).len() == 0);
    None
}

/// Whether labels satisfy a selector: every selector key is present with
/// the selector's value.
pub fn matches_selector(selector: &LabelSelector, labels: &Labels) -> (r: bool)
    ensures
        r == selector_matches(labels_view(selector.match_labels@), labels_view(labels@)),
{
    let ghost sv = labels_view(selector.match_labels@);
    let mut i: usize = 0;
    while i < selector.match_labels.len()
        invariant
            i <= selector.match_labels@.len(),
            sv == labels_view(selector.match_labels@),
            forall|t: int| 0 <= t < i ==> label_lookup(labels_view(labels@), (#[trigger] sv[t]).0) == Some(sv[t].1),
        decreases selector.match_labels.len() - i,
    {
        let (key, value) = (&selector.match_labels[i].0, &selector.match_labels[i].1);
        match get_label(labels, key) {
            Some(v) => {
                if v != *value {
                    assert(!(label_lookup(labels_view(labels@), sv[i as int].0) == Some(sv[i as int].1)));
                    return false;
                }
            },
            None => {
                return false;
            },
        }
        i += 1;
    }
    true
}

/// Whether a list of strings holds `s`.
pub fn contains_string(list: &Vec<String>, s: &String) -> (r: bool)
    ensures
        r == strings_view(list@).contains(s@),
{
    let mut i: usize = 0;
    while i < list.len()
        invariant
            i <= list@.len(),
            forall|t: int| 0 <= t < i ==> list@[t]@ != s@,
        decreases list.len() - i,
    {
        if list[i] == *s {
            assert(strings_view(list@)[i as int] == s@);
            return true;
        }
        i += 1;
    }
    assert(!strings_view(list@).contains(s@)) by {
        if strings_view(list@).contains(s@) {
            let t = choose|t: int| 0 <= t < strings_view(list@).len() && strings_view(list@)[t] == s@;
            assert(list@[t]@ == s@);
        }
    }
    false
}

/// `needle` occurs in `hay` starting at `i`.
pub open spec fn occurs_at(hay: Seq<char>, needle: Seq<char>, i: int) -> bool {
    0 <= i && i + needle.len() <= hay.len() && hay.subrange(i, i + needle.len()) == needle
}

/// `needle` occurs somewhere in `hay`.
pub open spec fn contains_text(hay: Seq<char>, needle: Seq<char>) -> bool {
    exists|i: int| occurs_at(hay, needle, i)
}

fn occurs_at_exec(hay: &[char], needle: &[char], i: usize) -> (r: bool)
    requires
        i + needle@.len() <= hay@.len(),
    ensures
        r == occurs_at(hay@, needle@, i as int),
{
    let mut j: usize = 0;
    let hl = hay.len();
    while j < needle.len()
        invariant
            hl == hay@.len(),
            j <= needle@.len(),
            i + needle@.len() <= hay@.len(),
            forall|t: int| 0 <= t < j ==> hay@[i + t] == needle@[t],
        decreases needle.len() - j,
    {
        assert(i + j < i + needle@.len());
        if hay[i + j] != needle[j] {
            assert(hay@.subrange(i as int, i + needle@.len())[j as int] != needle@[j as int]);
            return false;
        }
        j += 1;
    }
    assert(hay@.subrange(i as int, i + needle@.len()) =~= needle@);
    true
}

/// Whether `needle` occurs in `hay`, as `str::contains` answers.
pub fn text_contains(hay: &str, needle: &str) -> (r: bool)
    ensures
        r == contains_text(hay@, needle@),
{
    let h = chars_of(hay);
    let n = chars_of(needle);
    if n.len() > h.len() {
        assert(!contains_text(hay@, needle@));
        return false;
    }
    let last = h.len() - n.len();
    let mut i: usize = 0;
    loop
        invariant
            h@ == hay@,
            n@ == needle@,
            last == h@.len() - n@.len(),
            i <= last,
            forall|t: int| 0 <= t < i ==> !occurs_at(hay@, needle@, t),
        ensures
            forall|t: int| 0 <= t <= last ==> !occurs_at(hay@, needle@, t),
        decreases last - i,
    {
        if occurs_at_exec(h.as_slice(), n.as_slice(), i) {
            return true;
        }
        if i == last {
            break;
        }
        i += 1;
    }
    assert(!contains_text(hay@, needle@)) by {
        if contains_text(hay@, needle@) {
            let t = choose|t: int| occurs_at(hay@, needle@, t);
            assert(t <= last);
        }
    }
    false
}


/// The labels after setting `key` to `value`: the first pair with the key
/// gets the new value, or the pair is added at the end when the key is new.
pub open spec fn labels_set(l: Seq<(Seq<char>, Seq<char>)>, key: Seq<char>, value: Seq<char>) -> Seq<(Seq<char>, Seq<char>)>
    decreases l.len(),
{
    if l.len() == 0 {
        seq![(key, value)]
    } else if l[0].0 == key {
        l.update(0, (key, value))
    } else {
        seq![l[0]] + labels_set(l.drop_first(), key, value)
    }
}

/// The labels without any pair with key `key`.
pub open spec fn labels_remove(l: Seq<(Seq<char>, Seq<char>)>, key: Seq<char>) -> Seq<(Seq<char>, Seq<char>)>
    decreases l.len(),
{
    if l.len() == 0 {
        l
    } else if l[0].0 == key {
        labels_remove(l.drop_first(), key)
    } else {
        seq![l[0]] + labels_remove(l.drop_first(), key)
    }
}

/// Labels with `key` set to `value`.
pub fn set_label(labels: &Labels, key: &String, value: &String) -> (r: Labels)
    ensures
        labels_view(r@) == labels_set(labels_view(labels@), key@, value@),
{
    let ghost lv = labels_view(labels@);
    let mut r: Labels = Vec::new();
    let mut i: usize = 0;
    assert(lv.subrange(0, 0) + labels_set(lv.subrange(0, lv.len() as int), key@, value@) =~= labels_set(lv, key@, value@)) by {
        assert(lv.subrange(0, lv.len() as int) =~= lv);
    }
    while i < labels.len()
        invariant
            i <= labels@.len(),
            lv == labels_view(labels@),
            labels_view(r@) == lv.subrange(0, i as int),
            forall|t: int| 0 <= t < i ==> lv[t].0 != key@,
            labels_set(lv, key@, value@) == lv.subrange(0, i as int) + labels_set(lv.subrange(i as int, lv.len() as int), key@, value@),
        decreases labels.len() - i,
    {
        let ghost rest = lv.subrange(i as int, lv.len() as int);
        assert(rest.drop_first() =~= lv.subrange(i + 1, lv.len() as int));
        assert(rest[0] == lv[i as int]);
        if labels[i].0 == *key {
            r.push((key.clone(), value.clone()));
            let mut j = i + 1;
            while j < labels.len()
                invariant
                    i < j <= labels@.len(),
                    lv == labels_view(labels@),
                    labels_view(r@) == lv.subrange(0, i as int).push((key@, value@)) + lv.subrange(i + 1, j as int),
                decreases labels.len() - j,
            {
                let ghost r0 = labels_view(r@);
                r.push((labels[j].0.clone(), labels[j].1.clone()));
                assert(labels_view(r@) =~= r0.push(lv[j as int]));
                j += 1;
                assert(labels_view(r@) =~= lv.subrange(0, i as int).push((key@, value@)) + lv.subrange(i + 1, j as int));
            }
            assert(labels_set(rest, key@, value@) =~= rest.update(0, (key@, value@)));
            assert(labels_view(r@) =~= labels_set(lv, key@, value@));
            return r;
        }
        r.push((labels[i].0.clone(), labels[i].1.clone()));
        assert(labels_set(rest, key@, value@) =~= seq![rest[0]] + labels_set(rest.drop_first(), key@, value@));
        i += 1;
        assert(labels_view(r@) =~= lv.subrange(0, i as int));
        assert(lv.subrange(0, i - 1) + (seq![rest[0]] + labels_set(rest.drop_first(), key@, value@))
            =~= lv.subrange(0, i as int) + labels_set(lv.subrange(i as int, lv.len() as int), key@, value@));
    }
    r.push((key.clone(), value.clone()));
    assert(lv.subrange(i as int, lv.len() as int) =~= Seq::<(Seq<char>, Seq<char>)>::empty());
    assert(labels_view(r@) =~= labels_set(lv, key@, value@));
    r
}

/// Labels without `key`.
pub fn remove_label(labels: &Labels, key: &String) -> (r: Labels)
    ensures
        labels_view(r@) == labels_remove(labels_view(labels@), key@),
{
    let ghost lv = labels_view(labels@);
    let mut r: Labels = Vec::new();
    let mut i: usize = 0;
    assert(lv.subrange(0, 0) + labels_remove(lv.subrange(0, lv.len() as int), key@) =~= labels_remove(lv, key@)) by {
        assert(lv.subrange(0, lv.len() as int) =~= lv);
    }
    while i < labels.len()
        invariant
            i <= labels@.len(),
            lv == labels_view(labels@),
            labels_remove(lv, key@) == labels_view(r@) + labels_remove(lv.subrange(i as int, lv.len() as int), key@),
        decreases labels.len() - i,
    {
        let ghost rest = lv.subrange(i as int, lv.len() as int);
        let ghost r0 = labels_view(r@);
        assert(rest.drop_first() =~= lv.subrange(i + 1, lv.len() as int));
        assert(rest[0] == lv[i as int]);
        if labels[i].0 != *key {
            r.push((labels[i].0.clone(), labels[i].1.clone()));
            assert(labels_view(r@) =~= r0.push(rest[0]));
            assert(r0 + (seq![rest[0]] + labels_remove(rest.drop_first(), key@)) =~= labels_view(r@) + labels_remove(rest.drop_first(), key@));
        }
        i += 1;
    }
    assert(lv.subrange(i as int, lv.len() as int) =~= Seq::<(Seq<char>, Seq<char>)>::empty());
    assert(labels_view(r@) + Seq::<(Seq<char>, Seq<char>)>::empty() =~= labels_view(r@));
    r
}

/// After setting a label, looking it up gives the new value, and other
/// keys keep theirs.
pub proof fn set_label_then_lookup(l: Seq<(Seq<char>, Seq<char>)>, key: Seq<char>, value: Seq<char>, other: Seq<char>)
    ensures
        label_lookup(labels_set(l, key, value), key) == Some(value),
        other != key ==> label_lookup(labels_set(l, key, value), other) == label_lookup(l, other),
    decreases l.len(),
{
    if l.len() > 0 && l[0].0 != key {
        set_label_then_lookup(l.drop_first(), key, value, other);
        let t = labels_set(l.drop_first(), key, value);
        assert((seq![l[0]] + t).drop_first() =~= t);
        assert((seq![l[0]] + t)[0] == l[0]);
        assert(label_lookup(seq![l[0]] + t, other) == if l[0].0 == other { Some(l[0].1) } else { label_lookup(t, other) });
    } else if l.len() > 0 {
        let u = l.update(0, (key, value));
        assert(u.drop_first() =~= l.drop_first());
        assert(u[0] == (key, value));
        if other != key {
            assert(label_lookup(u, other) == label_lookup(u.drop_first(), other));
            assert(label_lookup(l, other) == label_lookup(l.drop_first(), other));
        }
    } else {
        let one = seq![(key, value)];
        assert(one[0] == (key, value));
        assert(one.drop_first().len() == 0);
        assert(label_lookup(one.drop_first(), other) is None);
    }
}

/// After removing a label, looking it up finds nothing, and other keys
/// keep their values.
pub proof fn remove_label_then_lookup(l: Seq<(Seq<char>, Seq<char>)>, key: Seq<char>, other: Seq<char>)
    ensures
        label_lookup(labels_remove(l, key), key) is None,
        other != key ==> label_lookup(labels_remove(l, key), other) == label_lookup(l, other),
    decreases l.len(),
{
    if l.len() > 0 {
        remove_label_then_lookup(l.drop_first(), key, other);
        if l[0].0 != key {
            let t = labels_remove(l.drop_first(), key);
            assert((seq![l[0]] + t).drop_first() =~= t);
        }
    }
}

} // verus!
