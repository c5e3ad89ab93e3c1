use vstd::prelude::*;
use crate::session::{Message, MessageRole, role_name};
use crate::number::{decimal, parse_usize_spec, usize_decimal, parse_usize};
use crate::text::{
    has_prefix, has_suffix, flatten_lines, join_spec, to_chars, append_chars, chars_start_with,
    chars_end_with, sub_chars, flatten_lines_chars, join_chars, chars_eq,
};

verus! {

/// Largest number of characters a history summary may hold before its oldest
/// fragments are dropped.
pub const SUMMARY_MAX_CHARS: usize = 600;

/// Separator between the fragments of a history summary.
pub open spec fn sep() -> Seq<char> {
    " | "@
}

/// Text before the count in the fragment that records dropped fragments.
pub open spec fn marker_head() -> Seq<char> {
    "[summary] "@
}

/// Text after the count in the fragment that records dropped fragments.
pub open spec fn marker_tail() -> Seq<char> {
    " older fragment(s) omitted"@
}

/// The fragment that records that `n` older fragments were dropped.
pub open spec fn marker(n: nat) -> Seq<char> {
    marker_head() + decimal(n) + marker_tail()
}

/// `usize` addition that stops at `usize::MAX`.
pub open spec fn sat_add(a: nat, b: nat) -> nat {
    if a + b > usize::MAX { usize::MAX as nat } else { a + b }
}

/// The count that a fragment of the form `marker(n)` records, if it has that form.
pub open spec fn parse_marker(f: Seq<char>) -> Option<nat> {
    if has_prefix(f, marker_head()) {
        let rest = f.subrange(marker_head().len() as int, f.len() as int);
        if has_suffix(rest, marker_tail()) {
            parse_usize_spec(rest.subrange(0, rest.len() - marker_tail().len()))
        } else {
            None
        }
    } else {
        None
    }
}

/// All fragments of a summary: the marker first when `omitted > 0`.
pub open spec fn summary_parts(frags: Seq<Seq<char>>, omitted: nat) -> Seq<Seq<char>> {
    if omitted > 0 { seq![marker(omitted)] + frags } else { frags }
}

/// The summary text for `frags` after `omitted` older fragments were dropped.
pub open spec fn render(frags: Seq<Seq<char>>, omitted: nat) -> Seq<char> {
    join_spec(summary_parts(frags, omitted), sep())
}

/// Drops the oldest fragments until the rendered summary fits the limit or
/// no fragment is left, counting each dropped fragment.
pub open spec fn shrink(frags: Seq<Seq<char>>, omitted: nat) -> (Seq<Seq<char>>, nat)
    decreases frags.len(),
{
    if frags.len() > 0 && render(frags, omitted).len() > SUMMARY_MAX_CHARS {
        shrink(frags.drop_first(), sat_add(omitted, 1))
    } else {
        (frags, omitted)
    }
}

/// The first position at or after `i` where `pat` occurs in `s`.
pub open spec fn find_from(s: Seq<char>, pat: Seq<char>, i: int) -> Option<int>
    decreases s.len() - i,
{
    if i < 0 || i >= s.len() || i + pat.len() > s.len() {
        None
    } else if s.subrange(i, i + pat.len()) == pat {
        Some(i)
    } else {
        find_from(s, pat, i + 1)
    }
}

/// A match found from `i` on starts at or after `i`, lies inside `s` and
/// equals the pattern.
pub proof fn lemma_find_from_bounds(s: Seq<char>, pat: Seq<char>, i: int)
    ensures
        find_from(s, pat, i) matches Some(j) ==> i <= j && j + pat.len() <= s.len()
            && s.subrange(j, j + pat.len()) == pat,
    decreases s.len() - i,
{
    if !(i < 0 || i >= s.len() || i + pat.len() > s.len()) && s.subrange(i, i + pat.len()) != pat {
        lemma_find_from_bounds(s, pat, i + 1);
    }
}

/// `s[start..].split(pat)` for a non-empty `pat`.
pub open spec fn split_from(s: Seq<char>, pat: Seq<char>, start: int) -> Seq<Seq<char>>
    decreases s.len() - start,
{
    if pat.len() == 0 || start < 0 || start > s.len() {
        seq![]
    } else {
        match find_from(s, pat, start) {
            None => seq![s.subrange(start, s.len() as int)],
            Some(j) => {
                proof { lemma_find_from_bounds(s, pat, start); }
                seq![s.subrange(start, j)] + split_from(s, pat, j + pat.len())
            },
        }
    }
}

/// Reads the fragments of an earlier summary: empty fragments are skipped, and
/// markers met before the first kept fragment add their count to the total.
pub open spec fn absorb(frags: Seq<Seq<char>>) -> (Seq<Seq<char>>, nat)
    decreases frags.len(),
{
    if frags.len() == 0 {
        (seq![], 0)
    } else {
        let (kept, omitted) = absorb(frags.drop_last());
        let f = frags.last();
        if f.len() == 0 {
            (kept, omitted)
        } else if kept.len() == 0 && parse_marker(f) is Some {
            (kept, sat_add(omitted, parse_marker(f)->0))
        } else {
            (kept.push(f), omitted)
        }
    }
}

/// Shrinking a summary drops fragments from the front until its rendering
/// fits in `SUMMARY_MAX_CHARS` characters or no fragment is left; it never
/// adds one.
pub proof fn lemma_shrink_fits(frags: Seq<Seq<char>>, omitted: nat)
    ensures
        render(shrink(frags, omitted).0, shrink(frags, omitted).1).len() <= SUMMARY_MAX_CHARS
            || shrink(frags, omitted).0.len() == 0,
        shrink(frags, omitted).0.len() <= frags.len(),
    decreases frags.len(),
{
    if frags.len() > 0 && render(frags, omitted).len() > SUMMARY_MAX_CHARS {
        lemma_shrink_fits(frags.drop_first(), sat_add(omitted, 1));
    }
}

/// A rendered marker reads back as the count it records.
pub proof fn lemma_marker_roundtrip(n: nat)
    requires
        n <= usize::MAX,
    ensures
        parse_marker(marker(n)) == Some(n),
{
    let m = marker(n);
    let h = marker_head();
    let t = marker_tail();
    let d = decimal(n);
    assert(m.subrange(0, h.len() as int) =~= h);
    let rest = m.subrange(h.len() as int, m.len() as int);
    assert(rest =~= d + t);
    assert(rest.subrange(rest.len() - t.len(), rest.len() as int) =~= t);
    assert(rest.subrange(0, rest.len() - t.len()) =~= d);
    crate::number::lemma_parse_decimal_roundtrip(n, usize::MAX as nat);
}

// ----------------------------------------------------------------------------
// executable counterparts

fn marker_chars(n: usize) -> (r: Vec<char>)
    ensures
        r@ == marker(n as nat),
{
    let mut r = to_chars("[summary] ");
    let d = usize_decimal(n);
    append_chars(&mut r, d.as_slice());
    let t = to_chars(" older fragment(s) omitted");
    append_chars(&mut r, t.as_slice());
    r
}

fn parse_marker_chars(f: &[char]) -> (r: Option<usize>)
    ensures
        r matches Some(n) ==> parse_marker(f@) == Some(n as nat),
        r is None ==> parse_marker(f@) is None,
{
    let h = to_chars("[summary] ");
    if !chars_start_with(f, h.as_slice()) {
        return None;
    }
    let rest = sub_chars(f, h.len(), f.len());
    let t = to_chars(" older fragment(s) omitted");
    if !chars_end_with(rest.as_slice(), t.as_slice()) {
        return None;
    }
    let mid = sub_chars(rest.as_slice(), 0, rest.len() - t.len());
    parse_usize(mid.as_slice())
}

/// The views of a list of character vectors.
pub open spec fn views(v: Seq<Vec<char>>) -> Seq<Seq<char>> {
    v.map_values(|p: Vec<char>| p@)
}

fn render_chars(frags: &Vec<Vec<char>>, start: usize, omitted: usize) -> (r: Vec<char>)
    requires
        start <= frags.len(),
    ensures
        r@ == render(views(frags@).subrange(start as int, frags.len() as int), omitted as nat),
{
    let mut parts: Vec<Vec<char>> = Vec::new();
    if omitted > 0 {
        parts.push(marker_chars(omitted));
    }
    let ghost base = views(parts@);
    let mut i = start;
    while i < frags.len()
        invariant
            start <= i <= frags.len(),
            base == (if omitted > 0 { seq![marker(omitted as nat)] } else { seq![] }),
            views(parts@) == base + views(frags@).subrange(start as int, i as int),
        decreases frags.len() - i,
    {
        let mut copy: Vec<char> = Vec::new();
        append_chars(&mut copy, frags[i].as_slice());
        let ghost before = views(parts@);
        parts.push(copy);
        assert(views(parts@) =~= before.push(copy@));
        assert(views(frags@).subrange(start as int, i + 1) =~= views(frags@).subrange(start as int, i as int).push(frags@[i as int]@));
        i = i + 1;
    }
    let sep = to_chars(" | ");
    let r = join_chars(&parts, sep.as_slice());
    proof {
        let want = summary_parts(views(frags@).subrange(start as int, frags.len() as int), omitted as nat);
        assert(views(parts@) =~= want);
    }
    r
}

} // verus!

verus! {

/// The messages of `ms` that are not system messages, in order.
pub open spec fn non_system(ms: Seq<Message>) -> Seq<Message>
    decreases ms.len(),
{
    if ms.len() == 0 {
        ms
    } else {
        let r = non_system(ms.drop_last());
        if ms.last().role != MessageRole::System { r.push(ms.last()) } else { r }
    }
}

/// The fragment for a user message answered by an assistant message.
pub open spec fn turn_fragment(u: Message, a: Message) -> Seq<char> {
    "[turn] "@ + flatten_lines(u.content@) + " => "@ + flatten_lines(a.content@)
}

/// The fragment for a message that is not part of a turn.
pub open spec fn single_fragment(m: Message) -> Seq<char> {
    "["@ + role_name(m.role) + "] "@ + flatten_lines(m.content@)
}

/// The fragments that summarize `ms`: a user message directly followed by an
/// assistant message forms one turn, every other message a fragment of its own.
pub open spec fn fragments(ms: Seq<Message>) -> Seq<Seq<char>>
    decreases ms.len(),
{
    if ms.len() == 0 {
        seq![]
    } else if ms[0].role == MessageRole::User && ms.len() >= 2 && ms[1].role == MessageRole::Assistant {
        seq![turn_fragment(ms[0], ms[1])] + fragments(ms.subrange(2, ms.len() as int))
    } else {
        seq![single_fragment(ms[0])] + fragments(ms.drop_first())
    }
}

/// The summary that results from folding `removed` into the summary
/// `existing`; `None` when `removed` holds nothing but system messages.
pub open spec fn summary_after(existing: Option<Seq<char>>, removed: Seq<Message>) -> Option<Seq<char>> {
    let nf = fragments(non_system(removed));
    if nf.len() == 0 {
        None
    } else {
        let earlier = match existing {
            Some(e) => absorb(split_from(e, sep(), 0)),
            None => (seq![], 0nat),
        };
        let shrunk = shrink(earlier.0 + nf, earlier.1);
        Some(render(shrunk.0, shrunk.1))
    }
}

fn copy_chars(v: &[char]) -> (r: Vec<char>)
    ensures
        r@ == v@,
{
    let mut r: Vec<char> = Vec::new();
    append_chars(&mut r, v);
    r
}

fn non_system_of(ms: &Vec<Message>) -> (r: Vec<Message>)
    ensures
        r@ == non_system(ms@),
{
    let mut r: Vec<Message> = Vec::new();
    let mut i: usize = 0;
    while i < ms.len()
        invariant
            0 <= i <= ms.len(),
            r@ == non_system(ms@.subrange(0, i as int)),
        decreases ms.len() - i,
    {
        assert(ms@.subrange(0, i + 1).drop_last() =~= ms@.subrange(0, i as int));
        if ms[i].role != MessageRole::System {
            r.push(ms[i].duplicate());
        }
        i = i + 1;
    }
    assert(ms@.subrange(0, ms.len() as int) =~= ms@);
    r
}

fn single_fragment_chars(m: &Message) -> (r: Vec<char>)
    ensures
        r@ == single_fragment(*m),
{
    let mut r = to_chars("[");
    let name = m.role.name();
    let nv = to_chars(name.as_str());
    append_chars(&mut r, nv.as_slice());
    let close = to_chars("] ");
    append_chars(&mut r, close.as_slice());
    let c = to_chars(m.content.as_str());
    let f = flatten_lines_chars(c.as_slice());
    append_chars(&mut r, f.as_slice());
    r
}

fn turn_fragment_chars(u: &Message, a: &Message) -> (r: Vec<char>)
    ensures
        r@ == turn_fragment(*u, *a),
{
    let mut r = to_chars("[turn] ");
    let cu = to_chars(u.content.as_str());
    let fu = flatten_lines_chars(cu.as_slice());
    append_chars(&mut r, fu.as_slice());
    let arrow = to_chars(" => ");
    append_chars(&mut r, arrow.as_slice());
    let ca = to_chars(a.content.as_str());
    let fa = flatten_lines_chars(ca.as_slice());
    append_chars(&mut r, fa.as_slice());
    r
}

fn fragments_of(ms: &Vec<Message>) -> (r: Vec<Vec<char>>)
    ensures
        views(r@) == fragments(ms@),
{
    let mut r: Vec<Vec<char>> = Vec::new();
    let mut i: usize = 0;
    assert(ms@.subrange(0, ms.len() as int) =~= ms@);
    while i < ms.len()
        invariant
            0 <= i <= ms.len(),
            views(r@) + fragments(ms@.subrange(i as int, ms.len() as int)) == fragments(ms@),
        decreases ms.len() - i,
    {
        let ghost rest = ms@.subrange(i as int, ms.len() as int);
        let ghost before = views(r@);
        if ms[i].role == MessageRole::User && i + 1 < ms.len() && ms[i + 1].role == MessageRole::Assistant {
            let f = turn_fragment_chars(&ms[i], &ms[i + 1]);
            r.push(f);
            assert(rest.subrange(2, rest.len() as int) =~= ms@.subrange(i + 2, ms.len() as int));
            assert(views(r@) =~= before.push(f@));
            assert(views(r@) + fragments(ms@.subrange(i + 2, ms.len() as int)) =~= before + fragments(rest));
            i = i + 2;
        } else {
            let f = single_fragment_chars(&ms[i]);
            r.push(f);
            assert(rest.drop_first() =~= ms@.subrange(i + 1, ms.len() as int));
            assert(views(r@) =~= before.push(f@));
            assert(views(r@) + fragments(ms@.subrange(i + 1, ms.len() as int)) =~= before + fragments(rest));
            i = i + 1;
        }
    }
    assert(fragments(ms@.subrange(ms.len() as int, ms.len() as int)) =~= Seq::<Seq<char>>::empty()) by {
        assert(ms@.subrange(ms.len() as int, ms.len() as int).len() == 0);
    }
    assert(views(r@) =~= fragments(ms@));
    r
}

proof fn lemma_find_step(s: Seq<char>, pat: Seq<char>, i: int)
    requires
        pat.len() > 0,
        0 <= i,
        i + pat.len() <= s.len(),
        s.subrange(i, i + pat.len()) != pat,
    ensures
        find_from(s, pat, i) == find_from(s, pat, i + 1),
{
}

fn split_summary(s: &[char]) -> (r: Vec<Vec<char>>)
    ensures
        views(r@) == split_from(s@, sep(), 0),
{
    let pat = to_chars(" | ");
    proof { reveal_strlit(" | "); }
    assert(pat@ == sep());
    let mut r: Vec<Vec<char>> = Vec::new();
    let mut start: usize = 0;
    let mut i: usize = 0;
    while pat.len() <= s.len() - i
        invariant
            pat@ == sep(),
            pat@.len() > 0,
            0 <= start <= i <= s.len(),
            find_from(s@, sep(), start as int) == find_from(s@, sep(), i as int),
            views(r@) + split_from(s@, sep(), start as int) == split_from(s@, sep(), 0),
        decreases s.len() - i,
    {
        let w = sub_chars(s, i, i + pat.len());
        if chars_eq(w.as_slice(), pat.as_slice()) {
            let piece = sub_chars(s, start, i);
            let ghost before = views(r@);
            r.push(piece);
            assert(views(r@) =~= before.push(piece@));
            assert(find_from(s@, sep(), i as int) == Some(i as int));
            assert(split_from(s@, sep(), start as int) == seq![piece@] + split_from(s@, sep(), (i + pat.len()) as int));
            assert(views(r@) + split_from(s@, sep(), (i + pat.len()) as int) =~= before + split_from(s@, sep(), start as int));
            i = i + pat.len();
            start = i;
        } else {
            proof { lemma_find_step(s@, sep(), i as int); }
            i = i + 1;
        }
    }
    let last = sub_chars(s, start, s.len());
    let ghost before = views(r@);
    assert(find_from(s@, sep(), i as int) is None);
    assert(split_from(s@, sep(), start as int) == seq![last@]);
    r.push(last);
    assert(views(r@) =~= before.push(last@));
    assert(views(r@) =~= before + split_from(s@, sep(), start as int));
    r
}

fn absorb_chars(pieces: &Vec<Vec<char>>) -> (r: (Vec<Vec<char>>, usize))
    ensures
        (views(r.0@), r.1 as nat) == absorb(views(pieces@)),
{
    let mut kept: Vec<Vec<char>> = Vec::new();
    let mut omitted: usize = 0;
    let mut i: usize = 0;
    while i < pieces.len()
        invariant
            0 <= i <= pieces.len(),
            (views(kept@), omitted as nat) == absorb(views(pieces@).subrange(0, i as int)),
        decreases pieces.len() - i,
    {
        let ghost pre = views(pieces@).subrange(0, i as int);
        let ghost cur = views(pieces@).subrange(0, i + 1);
        assert(cur.drop_last() =~= pre);
        assert(cur.last() == pieces@[i as int]@);
        let f = &pieces[i];
        if f.len() > 0 {
            let parsed = if kept.len() == 0 { parse_marker_chars(f.as_slice()) } else { None };
            match parsed {
                Some(n) => {
                    omitted = omitted.saturating_add(n);
                },
                None => {
                    let ghost before = views(kept@);
                    kept.push(copy_chars(f.as_slice()));
                    assert(views(kept@) =~= before.push(f@));
                },
            }
        }
        i = i + 1;
    }
    assert(views(pieces@).subrange(0, pieces.len() as int) =~= views(pieces@));
    (kept, omitted)
}

fn shrink_chars(frags: &Vec<Vec<char>>, omitted0: usize) -> (r: Vec<char>)
    ensures
        r@ == render(shrink(views(frags@), omitted0 as nat).0, shrink(views(frags@), omitted0 as nat).1),
{
    let mut start: usize = 0;
    let mut omitted = omitted0;
    assert(views(frags@).subrange(0, frags.len() as int) =~= views(frags@));
    let mut rendered = render_chars(frags, 0, omitted);
    while start < frags.len() && rendered.len() > SUMMARY_MAX_CHARS
        invariant
            0 <= start <= frags.len(),
            shrink(views(frags@), omitted0 as nat) == shrink(views(frags@).subrange(start as int, frags.len() as int), omitted as nat),
            rendered@ == render(views(frags@).subrange(start as int, frags.len() as int), omitted as nat),
        decreases frags.len() - start,
    {
        assert(views(frags@).subrange(start as int, frags.len() as int).drop_first() =~= views(frags@).subrange(start + 1, frags.len() as int));
        start = start + 1;
        omitted = omitted.saturating_add(1);
        rendered = render_chars(frags, start, omitted);
    }
    rendered
}

/// Folds the messages `removed` into the summary `existing`, as
/// `summary_after` states.
pub fn fold_into_summary(existing: Option<&str>, removed: &Vec<Message>) -> (r: Option<String>)
    ensures
        r is Some == summary_after(match existing { Some(e) => Some(e@), None => None }, removed@) is Some,
        r matches Some(s) ==> Some(s@) == summary_after(match existing { Some(e) => Some(e@), None => None }, removed@),
{
    let compact = non_system_of(removed);
    let new_frags = fragments_of(&compact);
    if new_frags.len() == 0 {
        return None;
    }
    let (mut kept, omitted) = match existing {
        Some(e) => {
            let ev = to_chars(e);
            let pieces = split_summary(ev.as_slice());
            absorb_chars(&pieces)
        },
        None => {
            let kept: Vec<Vec<char>> = Vec::new();
            assert(views(kept@) =~= Seq::<Seq<char>>::empty());
            (kept, 0usize)
        },
    };
    let ghost k0 = views(kept@);
    let mut j: usize = 0;
    while j < new_frags.len()
        invariant
            0 <= j <= new_frags.len(),
            views(kept@) == k0 + views(new_frags@).subrange(0, j as int),
        decreases new_frags.len() - j,
    {
        let ghost before = views(kept@);
        kept.push(copy_chars(new_frags[j].as_slice()));
        assert(views(kept@) =~= before.push(new_frags@[j as int]@));
        assert(views(new_frags@).subrange(0, j + 1) =~= views(new_frags@).subrange(0, j as int).push(new_frags@[j as int]@));
        j = j + 1;
    }
    assert(views(new_frags@).subrange(0, new_frags.len() as int) =~= views(new_frags@));
    let out = shrink_chars(&kept, omitted);
    Some(crate::text::from_chars(out.as_slice()))
}

} // verus!
