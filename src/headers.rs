use vstd::prelude::*;

verus! {

/// One header line: a name and its raw value. A header map is a `Vec` of
/// these, in order, with repeated names kept as repeated entries.
pub struct HeaderEntry {
    pub name: String,
    pub value: Vec<u8>,
}

impl View for HeaderEntry {
    type V = (Seq<char>, Seq<u8>);

    open spec fn view(&self) -> Self::V {
        (self.name@, self.value@)
    }
}

pub open spec fn entries_view(s: Seq<HeaderEntry>) -> Seq<(Seq<char>, Seq<u8>)> {
    s.map_values(|e: HeaderEntry| e@)
}

/// `c` is `l`, or `l` is a lower-case ASCII letter and `c` its upper case.
pub open spec fn same_ignoring_case(c: char, l: char) -> bool {
    c == l || ('a' <= l && l <= 'z' && c as u32 + 32 == l as u32)
}

/// `name` equals the lower-case `lower`, ASCII case ignored.
pub open spec fn name_matches(name: Seq<char>, lower: Seq<char>) -> bool {
    name.len() == lower.len() && forall|i: int|
        0 <= i < name.len() ==> same_ignoring_case(#[trigger] name[i], lower[i])
}

/// A header that belongs to one connection and is not forwarded by a proxy.
pub open spec fn is_hop_name(name: Seq<char>) -> bool {
    name_matches(name, "connection"@) || name_matches(name, "keep-alive"@) || name_matches(
        name,
        "proxy-authenticate"@,
    ) || name_matches(name, "proxy-authorization"@) || name_matches(name, "te"@)
        || name_matches(name, "trailer"@) || name_matches(name, "transfer-encoding"@)
        || name_matches(name, "upgrade"@)
}

/// A header that is never copied from the inbound request: a hop-by-hop
/// header, or `authorization` or `host`, which the proxy sets itself.
pub open spec fn is_dropped_name(name: Seq<char>) -> bool {
    is_hop_name(name) || name_matches(name, "authorization"@) || name_matches(name, "host"@)
}

/// The entries of `s` whose names are not dropped, in order.
pub open spec fn kept(s: Seq<(Seq<char>, Seq<u8>)>) -> Seq<(Seq<char>, Seq<u8>)>
    decreases s.len(),
{
    if s.len() == 0 {
        s
    } else if is_dropped_name(s.last().0) {
        kept(s.drop_last())
    } else {
        kept(s.drop_last()).push(s.last())
    }
}

/// Whether `name` equals the lower-case `lower`, ASCII case ignored.
pub fn matches_name(name: &str, lower: &str) -> (r: bool)
    ensures
        r == name_matches(name@, lower@),
{
    let n = name.unicode_len();
    if n != lower.unicode_len() {
        return false;
    }
    let mut i: usize = 0;
    while i < n
        invariant
            n == name@.len(),
            n == lower@.len(),
            i <= n,
            forall|k: int| 0 <= k < i ==> same_ignoring_case(#[trigger] name@[k], lower@[k]),
        decreases n - i,
    {
        let c = name.get_char(i);
        let l = lower.get_char(i);
        let same = c == l || ('a' <= l && l <= 'z' && (c as u32) + 32 == l as u32);
        if !same {
            return false;
        }
        i = i + 1;
    }
    true
}

/// Whether `name` is one of the hop-by-hop headers, in any ASCII case.
pub fn is_hop_header(name: &str) -> (r: bool)
    ensures
        r == is_hop_name(name@),
{
    matches_name(name, "connection") || matches_name(name, "keep-alive") || matches_name(
        name,
        "proxy-authenticate",
    ) || matches_name(name, "proxy-authorization") || matches_name(name, "te") || matches_name(
        name,
        "trailer",
    ) || matches_name(name, "transfer-encoding") || matches_name(name, "upgrade")
}

fn is_dropped_header(name: &str) -> (r: bool)
    ensures
        r == is_dropped_name(name@),
{
    is_hop_header(name) || matches_name(name, "authorization") || matches_name(name, "host")
}

impl HeaderEntry {
    pub fn duplicate(&self) -> (r: HeaderEntry)
        ensures
            r@ == self@,
    {
        let value = self.value.clone();
        assert(value@ =~= self.value@);
        HeaderEntry { name: self.name.clone(), value }
    }
}

/// Appends to `dst` every entry of `src` but the hop-by-hop, `authorization`
/// and `host` ones, in order, repeated names kept.
pub fn copy_headers(src: &Vec<HeaderEntry>, dst: &mut Vec<HeaderEntry>)
    ensures
        entries_view(final(dst)@) == entries_view(old(dst)@) + kept(entries_view(src@)),
{
    let ghost start = entries_view(dst@);
    let ghost all = entries_view(src@);
    let mut i: usize = 0;
    assert(all.subrange(0, 0) =~= Seq::<(Seq<char>, Seq<u8>)>::empty());
    assert(start + kept(all.subrange(0, 0)) =~= start);
    while i < src.len()
        invariant
            i <= src@.len(),
            all == entries_view(src@),
            start == entries_view(old(dst)@),
            entries_view(dst@) == start + kept(all.subrange(0, i as int)),
        decreases src@.len() - i,
    {
        let e = &src[i];
        proof {
            let pre = all.subrange(0, i as int);
            let next = all.subrange(0, i as int + 1);
            assert(next.drop_last() =~= pre);
            assert(next.last() == e@);
        }
        if !is_dropped_header(e.name.as_str()) {
            let ghost before = dst@;
            dst.push(e.duplicate());
            proof {
                assert(entries_view(dst@) =~= entries_view(before).push(e@));
                assert(entries_view(dst@) =~= start + kept(all.subrange(0, i as int + 1)));
            }
        }
        i = i + 1;
    }
    assert(all.subrange(0, src@.len() as int) =~= all);
}

} // verus!

verus! {

/// No entry that the copy keeps is hop-by-hop, `authorization` or `host`,
/// and each kept entry is one of the source's.
pub proof fn lemma_kept_drops(s: Seq<(Seq<char>, Seq<u8>)>)
    ensures
        forall|i: int| 0 <= i < kept(s).len() ==> !is_dropped_name(#[trigger] kept(s)[i].0),
        forall|i: int| 0 <= i < kept(s).len() ==> s.contains(#[trigger] kept(s)[i]),
    decreases s.len(),
{
    if s.len() > 0 {
        lemma_kept_drops(s.drop_last());
        let k = kept(s.drop_last());
        assert forall|i: int| 0 <= i < kept(s).len() implies s.contains(#[trigger] kept(s)[i]) by {
            if i < k.len() {
                let j = choose|j: int| 0 <= j < s.drop_last().len() && s.drop_last()[j] == k[i];
                assert(s[j] == kept(s)[i]);
            } else {
                assert(s[s.len() - 1] == kept(s)[i]);
            }
        }
    }
}

/// Every source entry that is not dropped is kept.
pub proof fn lemma_kept_keeps(s: Seq<(Seq<char>, Seq<u8>)>, e: (Seq<char>, Seq<u8>))
    requires
        s.contains(e),
        !is_dropped_name(e.0),
    ensures
        kept(s).contains(e),
    decreases s.len(),
{
    if s.last() == e {
        assert(kept(s).last() == e);
    } else {
        let j = choose|j: int| 0 <= j < s.len() && s[j] == e;
        assert(s.drop_last()[j] == e);
        lemma_kept_keeps(s.drop_last(), e);
        let k = kept(s.drop_last());
        let m = choose|m: int| 0 <= m < k.len() && k[m] == e;
        assert(kept(s)[m] == e);
    }
}

} // verus!
