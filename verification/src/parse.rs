//! Source-level helpers of the parser: line-break counting, the attachment
//! of leading comments to declarations, and the parsed expressions that
//! statement lowering copies. Source text is handled as its UTF-8 bytes;
//! spans are byte offsets.
use vstd::prelude::*;
use crate::diag::Span;

verus! {

/// Number of line breaks in `s`; `\r\n` counts once.
pub open spec fn line_breaks(s: Seq<u8>) -> nat
    decreases s.len(),
{
    if s.len() == 0 {
        0
    } else if s[0] == 10u8 {
        1 + line_breaks(s.skip(1))
    } else if s[0] == 13u8 {
        if s.len() >= 2 && s[1] == 10u8 {
            1 + line_breaks(s.skip(2))
        } else {
            1 + line_breaks(s.skip(1))
        }
    } else {
        line_breaks(s.skip(1))
    }
}

/// Counts the line breaks of `text`: `\n`, `\r`, and `\r\n` as one.
pub fn line_break_count(text: &[u8]) -> (n: usize)
    ensures
        n == line_breaks(text@),
{
    let len = text.len();
    let mut count: usize = 0;
    let mut index: usize = 0;
    proof {
        assert(text@.skip(0) =~= text@);
    }
    while index < len
        invariant
            len == text@.len(),
            index <= len,
            count <= index,
            count + line_breaks(text@.skip(index as int)) == line_breaks(text@),
        decreases len - index,
    {
        let ghost rest = text@.skip(index as int);
        proof {
            assert(rest[0] == text@[index as int]);
            assert(rest.skip(1) =~= text@.skip(index + 1));
        }
        if text[index] == 10u8 {
            count = count + 1;
            index = index + 1;
        } else if text[index] == 13u8 {
            count = count + 1;
            if index + 1 < len && text[index + 1] == 10u8 {
                proof {
                    assert(rest[1] == text@[index + 1]);
                    assert(rest.skip(2) =~= text@.skip(index + 2));
                }
                index = index + 2;
            } else {
                index = index + 1;
            }
        } else {
            index = index + 1;
        }
    }
    count
}

/// `i` is a character boundary of the UTF-8 text `s`.
pub open spec fn is_boundary(s: Seq<u8>, i: int) -> bool {
    i == 0 || i == s.len() || (0 < i < s.len() && (s[i] < 0x80u8 || s[i] >= 0xC0u8))
}

/// Byte length of the Unicode white-space character starting at `i`, or 0.
pub open spec fn ws_len(s: Seq<u8>, i: int) -> nat {
    let b = s[i];
    if b == 0x20u8 || (0x09u8 <= b && b <= 0x0Du8) {
        1
    } else if b == 0xC2u8 && i + 1 < s.len() && (s[i + 1] == 0x85u8 || s[i + 1] == 0xA0u8) {
        2
    } else if i + 2 < s.len() && ((b == 0xE1u8 && s[i + 1] == 0x9Au8 && s[i + 2] == 0x80u8) || (b == 0xE2u8
        && s[i + 1] == 0x80u8 && ((0x80u8 <= s[i + 2] && s[i + 2] <= 0x8Au8) || s[i + 2] == 0xA8u8 || s[i + 2]
        == 0xA9u8 || s[i + 2] == 0xAFu8)) || (b == 0xE2u8 && s[i + 1] == 0x81u8 && s[i + 2] == 0x9Fu8) || (b
        == 0xE3u8 && s[i + 1] == 0x80u8 && s[i + 2] == 0x80u8)) {
        3
    } else {
        0
    }
}

/// The bytes `a..b` of `s` are all Unicode white space.
pub open spec fn all_ws(s: Seq<u8>, a: int, b: int) -> bool
    decreases b - a,
{
    if a >= b {
        true
    } else if 0 <= a < s.len() && ws_len(s, a) > 0 && a + ws_len(s, a) <= b {
        all_ws(s, a + ws_len(s, a), b)
    } else {
        false
    }
}

fn white_space_len(s: &[u8], i: usize) -> (n: usize)
    requires
        i < s@.len(),
    ensures
        n == ws_len(s@, i as int),
{
    let b = s[i];
    let len = s.len();
    if b == 0x20u8 || (0x09u8 <= b && b <= 0x0Du8) {
        1
    } else if b == 0xC2u8 && len - i > 1 && (s[i + 1] == 0x85u8 || s[i + 1] == 0xA0u8) {
        2
    } else if len - i > 2 && ((b == 0xE1u8 && s[i + 1] == 0x9Au8 && s[i + 2] == 0x80u8) || (b == 0xE2u8
        && s[i + 1] == 0x80u8 && ((0x80u8 <= s[i + 2] && s[i + 2] <= 0x8Au8) || s[i + 2] == 0xA8u8
        || s[i + 2] == 0xA9u8 || s[i + 2] == 0xAFu8)) || (b == 0xE2u8 && s[i + 1] == 0x81u8 && s[i + 2]
        == 0x9Fu8) || (b == 0xE3u8 && s[i + 1] == 0x80u8 && s[i + 2] == 0x80u8)) {
        3
    } else {
        0
    }
}

/// Whether the bytes `a..b` of `s` are all white space.
pub fn all_white_space(s: &[u8], a: usize, b: usize) -> (r: bool)
    ensures
        r == all_ws(s@, a as int, b as int),
{
    let mut i = a;
    while i < b
        invariant
            a <= i,
            all_ws(s@, a as int, b as int) == all_ws(s@, i as int, b as int),
        decreases b - i,
    {
        if i >= s.len() {
            return false;
        }
        let n = white_space_len(s, i);
        if n == 0 || n > b - i {
            return false;
        }
        i = i + n;
    }
    true
}

/// A source comment.
#[derive(Clone, Copy, Debug, PartialEq, Eq, Hash, Structural)]
pub struct SourceComment {
    pub span: Span,
}

/// Comments in source order, pairwise disjoint, within the source and on
/// character boundaries (as the tokenizer produces them).
pub open spec fn comments_well_formed(src: Seq<u8>, cs: Seq<SourceComment>) -> bool {
    &&& forall|i: int| 0 <= i < cs.len() ==> #[trigger] cs[i].span.start <= cs[i].span.end && cs[i].span.end <= src.len()
        && is_boundary(src, cs[i].span.start as int) && is_boundary(src, cs[i].span.end as int)
    &&& forall|i: int, j: int| 0 <= i < j < cs.len() ==> #[trigger] cs[i].span.end <= #[trigger] cs[j].span.start
}

/// `x` is not strictly inside any comment.
pub open spec fn outside_comments(cs: Seq<SourceComment>, x: int) -> bool {
    forall|i: int| 0 <= i < cs.len() ==> !(#[trigger] cs[i].span.start < x && x < cs[i].span.end)
}

/// Number of leading comments that end at or before `x`.
pub open spec fn count_end_le(cs: Seq<SourceComment>, x: int) -> nat
    decreases cs.len(),
{
    if cs.len() == 0 || cs[0].span.end > x {
        0
    } else {
        1 + count_end_le(cs.skip(1), x)
    }
}

/// Number of leading comments that start before `x`.
pub open spec fn count_start_lt(cs: Seq<SourceComment>, x: int) -> nat
    decreases cs.len(),
{
    if cs.len() == 0 || cs[0].span.start >= x {
        0
    } else {
        1 + count_start_lt(cs.skip(1), x)
    }
}

fn partition_end_le(cs: &[SourceComment], x: usize) -> (n: usize)
    ensures
        n == count_end_le(cs@, x as int),
        n <= cs@.len(),
{
    let mut i: usize = 0;
    proof {
        assert(cs@.skip(0) =~= cs@);
    }
    while i < cs.len() && cs[i].span.end <= x
        invariant
            i <= cs@.len(),
            count_end_le(cs@, x as int) == i + count_end_le(cs@.skip(i as int), x as int),
        decreases cs@.len() - i,
    {
        proof {
            assert(cs@.skip(i as int).skip(1) =~= cs@.skip(i + 1));
            assert(cs@.skip(i as int)[0] == cs@[i as int]);
        }
        i = i + 1;
    }
    proof {
        if i < cs@.len() {
            assert(cs@.skip(i as int)[0] == cs@[i as int]);
        }
    }
    i
}

fn partition_start_lt(cs: &[SourceComment], x: usize) -> (n: usize)
    ensures
        n == count_start_lt(cs@, x as int),
        n <= cs@.len(),
{
    let mut i: usize = 0;
    proof {
        assert(cs@.skip(0) =~= cs@);
    }
    while i < cs.len() && cs[i].span.start < x
        invariant
            i <= cs@.len(),
            count_start_lt(cs@, x as int) == i + count_start_lt(cs@.skip(i as int), x as int),
        decreases cs@.len() - i,
    {
        proof {
            assert(cs@.skip(i as int).skip(1) =~= cs@.skip(i + 1));
            assert(cs@.skip(i as int)[0] == cs@[i as int]);
        }
        i = i + 1;
    }
    proof {
        if i < cs@.len() {
            assert(cs@.skip(i as int)[0] == cs@[i as int]);
        }
    }
    i
}

} // verus!

verus! {

/// One past the last line break before `x`, or 0.
pub open spec fn line_start(src: Seq<u8>, x: int) -> int
    decreases x,
{
    if x <= 0 || x > src.len() {
        0
    } else if src[x - 1] == 10u8 || src[x - 1] == 13u8 {
        x
    } else {
        line_start(src, x - 1)
    }
}

/// The bytes `a..b` hold something other than white space.
pub open spec fn has_code(src: Seq<u8>, a: int, b: int) -> bool {
    !all_ws(src, a, b)
}

/// Scans the comments `lo..hi` that lie on the comment's line before it:
/// code between consecutive such comments (starting from `cursor`), or
/// between the last of them and the comment, is code before the comment.
pub open spec fn code_before_scan(src: Seq<u8>, cs: Seq<SourceComment>, lo: int, hi: int, line: int, comment_start: int, cursor: int) -> bool
    decreases hi - lo,
{
    if lo >= hi || lo < 0 || hi > cs.len() {
        has_code(src, cursor, comment_start)
    } else {
        let p = cs[lo];
        if p.span.start < line || p.span.end > comment_start {
            code_before_scan(src, cs, lo + 1, hi, line, comment_start, cursor)
        } else if has_code(src, cursor, p.span.start as int) {
            true
        } else {
            code_before_scan(src, cs, lo + 1, hi, line, comment_start, p.span.end as int)
        }
    }
}

/// The line of `comment` holds code before it, ignoring other comments and,
/// when given, everything before `allowed_line_prefix_end` on that line.
pub open spec fn code_before(src: Seq<u8>, cs: Seq<SourceComment>, comment: SourceComment, allowed: Option<usize>) -> bool {
    let line = line_start(src, comment.span.start as int);
    let cursor = match allowed {
        Some(e) => if line <= e && e <= comment.span.start { e as int } else { line },
        None => line,
    };
    code_before_scan(src, cs, count_end_le(cs, cursor) as int, count_start_lt(cs, comment.span.start as int) as int,
        line, comment.span.start as int, cursor)
}

fn line_start_of(src: &[u8], x: usize) -> (r: usize)
    ensures
        r == line_start(src@, x as int),
{
    if x > src.len() {
        return 0;
    }
    let mut i = x;
    while i > 0
        invariant
            i <= x <= src@.len(),
            line_start(src@, x as int) == line_start(src@, i as int),
        decreases i,
    {
        if src[i - 1] == 10u8 || src[i - 1] == 13u8 {
            return i;
        }
        i = i - 1;
    }
    0
}

/// Whether the comment's line holds code before it.
pub fn comment_has_code_before_it_on_line(
    source: &[u8],
    comments: &[SourceComment],
    comment: SourceComment,
    allowed_line_prefix_end: Option<usize>,
) -> (r: bool)
    requires
        comments_well_formed(source@, comments@),
        comment.span.start <= source@.len(),
        is_boundary(source@, comment.span.start as int),
    ensures
        r == code_before(source@, comments@, comment, allowed_line_prefix_end),
{
    let line = line_start_of(source, comment.span.start);
    let mut cursor = match allowed_line_prefix_end {
        Some(e) => if line <= e && e <= comment.span.start {
            e
        } else {
            line
        },
        None => line,
    };
    let first = partition_end_le(comments, cursor);
    let past_last = partition_start_lt(comments, comment.span.start);
    let ghost cursor0 = cursor as int;
    let mut k = first;
    while k < past_last
        invariant
            first <= k || k >= past_last,
            past_last <= comments@.len(),
            code_before(source@, comments@, comment, allowed_line_prefix_end)
                == code_before_scan(source@, comments@, k as int, past_last as int, line as int, comment.span.start as int, cursor as int),
        decreases past_last - k,
    {
        let previous = comments[k];
        if previous.span.start < line || previous.span.end > comment.span.start {
            k = k + 1;
            continue;
        }
        if !all_white_space(source, cursor, previous.span.start) {
            return true;
        }
        cursor = previous.span.end;
        k = k + 1;
    }
    !all_white_space(source, cursor, comment.span.start)
}

/// The comments directly before position `cursor`, scanning comments
/// `lo..k` backwards: each must be separated from what follows it by white
/// space with at most one line break, and must not follow code on its line.
pub open spec fn attach_back(src: Seq<u8>, cs: Seq<SourceComment>, lo: int, k: int, cursor: int, allowed: Option<usize>) -> Seq<SourceComment>
    decreases k - lo,
{
    if k <= lo || k > cs.len() || lo < 0 {
        Seq::empty()
    } else {
        let c = cs[k - 1];
        if !(c.span.end <= cursor && cursor <= src.len() && is_boundary(src, c.span.end as int) && is_boundary(src, cursor)) {
            Seq::empty()
        } else if !all_ws(src, c.span.end as int, cursor) || line_breaks(src.subrange(c.span.end as int, cursor)) > 1
            || code_before(src, cs, c, allowed) {
            Seq::empty()
        } else {
            attach_back(src, cs, lo, k - 1, c.span.start as int, allowed).push(c)
        }
    }
}

/// The comments attached to a declaration starting at `declaration_start`,
/// among those starting at or after `minimum_start`, in source order.
pub open spec fn directly_before_since(src: Seq<u8>, cs: Seq<SourceComment>, declaration_start: int, minimum_start: int, allowed: Option<usize>) -> Seq<SourceComment> {
    attach_back(src, cs, count_start_lt(cs, minimum_start) as int, count_end_le(cs, declaration_start) as int, declaration_start, allowed)
}

fn is_char_boundary(src: &[u8], i: usize) -> (b: bool)
    ensures
        b == is_boundary(src@, i as int),
{
    i == 0 || i == src.len() || (i < src.len() && (src[i] < 0x80u8 || src[i] >= 0xC0u8))
}

pub fn comments_directly_before_since(
    source: &[u8],
    comments: &[SourceComment],
    declaration_start: usize,
    minimum_start: usize,
    allowed_line_prefix_end: Option<usize>,
) -> (r: Vec<SourceComment>)
    requires
        comments_well_formed(source@, comments@),
        forall|i: int| 0 <= i < comments@.len() ==> #[trigger] comments@[i].span.start < comments@[i].span.end,
        minimum_start <= declaration_start,
        outside_comments(comments@, declaration_start as int),
    ensures
        r@ == directly_before_since(source@, comments@, declaration_start as int, minimum_start as int, allowed_line_prefix_end),
{
    let mut cursor = declaration_start;
    let mut attached: Vec<SourceComment> = Vec::new();
    let first_candidate = partition_start_lt(comments, minimum_start);
    let past_last_candidate = partition_end_le(comments, declaration_start);
    let ghost lo = first_candidate as int;
    let ghost full = directly_before_since(source@, comments@, declaration_start as int, minimum_start as int, allowed_line_prefix_end);
    let mut k = past_last_candidate;
    proof {
        assert(attached@ =~= Seq::<SourceComment>::empty());
        assert(full == attach_back(source@, comments@, lo, k as int, cursor as int, allowed_line_prefix_end) + attached@);
    }
    while k > first_candidate
        invariant
            k <= comments@.len(),
            lo == first_candidate,
            comments_well_formed(source@, comments@),
            full == directly_before_since(source@, comments@, declaration_start as int, minimum_start as int, allowed_line_prefix_end),
            full == attach_back(source@, comments@, lo, k as int, cursor as int, allowed_line_prefix_end) + attached@,
        decreases k,
    {
        let comment = comments[k - 1];
        let gap_ok = comment.span.end <= cursor && cursor <= source.len() && is_char_boundary(source, comment.span.end)
            && is_char_boundary(source, cursor);
        if !gap_ok {
            proof {
                assert(full == attached@);
            }
            return attached;
        }
        let gap = vstd::slice::slice_subrange(source, comment.span.end, cursor);
        proof {
            assert(gap@ =~= source@.subrange(comment.span.end as int, cursor as int));
            assert(0 <= k - 1 < comments@.len());
            assert(comments@[k - 1] == comment);
        }
        if !all_white_space(source, comment.span.end, cursor) || line_break_count(gap) > 1
            || comment_has_code_before_it_on_line(source, comments, comment, allowed_line_prefix_end) {
            proof {
                assert(full == attached@);
            }
            return attached;
        }
        let ghost prev = attached@;
        attached.insert(0, comment);
        proof {
            assert(attached@ =~= seq![comment] + prev);
            assert(attach_back(source@, comments@, lo, k as int, cursor as int, allowed_line_prefix_end)
                == attach_back(source@, comments@, lo, k - 1, comment.span.start as int, allowed_line_prefix_end).push(comment));
            assert(attach_back(source@, comments@, lo, k - 1, comment.span.start as int, allowed_line_prefix_end).push(comment) + prev
                =~= attach_back(source@, comments@, lo, k - 1, comment.span.start as int, allowed_line_prefix_end) + (seq![comment] + prev));
        }
        cursor = comment.span.start;
        k = k - 1;
    }
    proof {
        assert(full == attached@);
    }
    attached
}

} // verus!

verus! {

/// The comments attached to a declaration starting at `declaration_start`.
pub fn comments_directly_before(source: &[u8], comments: &[SourceComment], declaration_start: usize) -> (r: Vec<SourceComment>)
    requires
        comments_well_formed(source@, comments@),
        forall|i: int| 0 <= i < comments@.len() ==> #[trigger] comments@[i].span.start < comments@[i].span.end,
        outside_comments(comments@, declaration_start as int),
    ensures
        r@ == directly_before_since(source@, comments@, declaration_start as int, 0, None),
{
    comments_directly_before_since(source, comments, declaration_start, 0, None)
}

/// The comments between a constructor's introducer (`|` or `=`) and the
/// constructor; code before the introducer on the same line is allowed.
pub fn comments_directly_after_introducer(source: &[u8], comments: &[SourceComment], introducer: Span, declaration_start: usize) -> (r: Vec<SourceComment>)
    requires
        comments_well_formed(source@, comments@),
        forall|i: int| 0 <= i < comments@.len() ==> #[trigger] comments@[i].span.start < comments@[i].span.end,
        introducer.end <= declaration_start,
        outside_comments(comments@, declaration_start as int),
    ensures
        r@ == directly_before_since(source@, comments@, declaration_start as int, introducer.end as int, Some(introducer.end)),
{
    comments_directly_before_since(source, comments, declaration_start, introducer.end, Some(introducer.end))
}

/// A parsed ADT constructor, as far as comment attachment needs it.
#[derive(Debug)]
pub struct ParsedAdtCtor {
    pub span: Span,
    /// The `=` or `|` that introduces the constructor.
    pub introducer: Option<Span>,
    pub leading_comments: Vec<SourceComment>,
}

/// The comments of a constructor: those directly before its introducer when
/// the introducer is directly followed by the constructor or its trailing
/// comments, then those between the introducer and the constructor.
pub open spec fn ctor_comments(src: Seq<u8>, cs: Seq<SourceComment>, introducer: Span, ctor_start: int) -> Seq<SourceComment> {
    let trailing = directly_before_since(src, cs, ctor_start, introducer.end as int, Some(introducer.end));
    let next_start = if trailing.len() > 0 { trailing[0].span.start as int } else { ctor_start };
    let direct = introducer.end <= next_start && next_start <= src.len() && is_boundary(src, introducer.end as int)
        && is_boundary(src, next_start) && all_ws(src, introducer.end as int, next_start)
        && line_breaks(src.subrange(introducer.end as int, next_start)) <= 1;
    (if direct { directly_before_since(src, cs, introducer.start as int, 0, None) } else { Seq::empty() }) + trailing
}

pub open spec fn ctor_ok(src: Seq<u8>, cs: Seq<SourceComment>, c: ParsedAdtCtor) -> bool {
    c.introducer matches Some(i) && i.end <= c.span.start && outside_comments(cs, c.span.start as int)
        && outside_comments(cs, i.start as int)
}

/// `after` holds the constructors of `before`, each with its comments
/// attached.
pub open spec fn ctors_attached(src: Seq<u8>, cs: Seq<SourceComment>, before: Seq<ParsedAdtCtor>, after: Seq<ParsedAdtCtor>) -> bool {
    &&& after.len() == before.len()
    &&& forall|i: int| 0 <= i < after.len() ==> {
        &&& (#[trigger] after[i]).span == before[i].span
        &&& after[i].introducer == before[i].introducer
        &&& after[i].leading_comments@ == ctor_comments(src, cs, before[i].introducer.unwrap(), before[i].span.start as int)
    }
}

/// Attaches leading comments to each constructor of an ADT.
pub fn attach_adt_constructor_comments(source: &[u8], comments: &[SourceComment], ctors: &mut Vec<ParsedAdtCtor>)
    requires
        comments_well_formed(source@, comments@),
        forall|i: int| 0 <= i < comments@.len() ==> #[trigger] comments@[i].span.start < comments@[i].span.end,
        forall|i: int| 0 <= i < old(ctors)@.len() ==> #[trigger] ctor_ok(source@, comments@, old(ctors)@[i]),
    ensures
        ctors_attached(source@, comments@, old(ctors)@, final(ctors)@),
{
    let ghost initial = ctors@;
    let mut k: usize = 0;
    while k < ctors.len()
        invariant
            comments_well_formed(source@, comments@),
            forall|i: int| 0 <= i < comments@.len() ==> #[trigger] comments@[i].span.start < comments@[i].span.end,
            ctors@.len() == initial.len(),
            forall|i: int| 0 <= i < initial.len() ==> #[trigger] ctor_ok(source@, comments@, initial[i]),
            forall|i: int| k <= i < initial.len() ==> #[trigger] ctors@[i] == initial[i],
            forall|i: int| 0 <= i < k ==> {
                &&& (#[trigger] ctors@[i]).span == initial[i].span
                &&& ctors@[i].introducer == initial[i].introducer
                &&& ctors@[i].leading_comments@ == ctor_comments(source@, comments@, initial[i].introducer.unwrap(), initial[i].span.start as int)
            },
        decreases ctors@.len() - k,
    {
        proof {
            assert(ctor_ok(source@, comments@, initial[k as int]));
            assert(ctors@[k as int] == initial[k as int]);
        }
        let span = ctors[k].span;
        let introducer = ctors[k].introducer.unwrap();
        let trailing = comments_directly_after_introducer(source, comments, introducer, span.start);
        let next_start = if trailing.len() > 0 {
            trailing[0].span.start
        } else {
            span.start
        };
        let direct = if introducer.end <= next_start && next_start <= source.len() && is_char_boundary(source, introducer.end)
            && is_char_boundary(source, next_start) {
            let gap = vstd::slice::slice_subrange(source, introducer.end, next_start);
            proof {
                assert(gap@ =~= source@.subrange(introducer.end as int, next_start as int));
            }
            all_white_space(source, introducer.end, next_start) && line_break_count(gap) <= 1
        } else {
            false
        };
        let mut leading = if direct {
            comments_directly_before(source, comments, introducer.start)
        } else {
            Vec::new()
        };
        let mut trailing_mut = trailing;
        let ghost lead_before = leading@;
        let ghost trail = trailing_mut@;
        leading.append(&mut trailing_mut);
        proof {
            assert(leading@ == lead_before + trail);
            assert(leading@ =~= ctor_comments(source@, comments@, introducer, span.start as int));
        }
        let ctor = ParsedAdtCtor { span, introducer: Some(introducer), leading_comments: leading };
        ctors.set(k, ctor);
        k = k + 1;
    }
}

} // verus!

verus! {

/// A parsed expression, as far as statement lowering inspects it.
#[derive(Debug)]
pub struct ParsedExpr {
    pub span: Span,
    pub kind: ParsedExprKind,
}

#[derive(Debug)]
pub enum ParsedExprKind {
    Name(String),
    Number(String),
    Str(String),
    Bool(bool),
    BinOp { lhs: Box<ParsedExpr>, bin_op: crate::ops::BinOp, op_span: Span, rhs: Box<ParsedExpr> },
    UnaryOp { un_op: crate::ops::UnOp, op_span: Span, expr: Box<ParsedExpr> },
    Call { callee: Box<ParsedExpr>, args: Vec<ParsedExpr> },
    Index { base: Box<ParsedExpr>, index: Box<ParsedExpr> },
    Field { base: Box<ParsedExpr>, name: String },
    Error,
}

/// The mathematical value of a `ParsedExpr`.
pub enum PExpr {
    Name(Span, Seq<char>),
    Number(Span, Seq<char>),
    Str(Span, Seq<char>),
    Bool(Span, bool),
    BinOp(Span, Box<PExpr>, crate::ops::BinOp, Span, Box<PExpr>),
    UnaryOp(Span, crate::ops::UnOp, Span, Box<PExpr>),
    Call(Span, Box<PExpr>, Seq<PExpr>),
    Index(Span, Box<PExpr>, Box<PExpr>),
    Field(Span, Box<PExpr>, Seq<char>),
    Error(Span),
}

pub open spec fn pexpr(e: ParsedExpr) -> PExpr
    decreases e,
{
    let s = e.span;
    match e.kind {
        ParsedExprKind::Name(n) => PExpr::Name(s, n@),
        ParsedExprKind::Number(n) => PExpr::Number(s, n@),
        ParsedExprKind::Str(n) => PExpr::Str(s, n@),
        ParsedExprKind::Bool(b) => PExpr::Bool(s, b),
        ParsedExprKind::BinOp { lhs, bin_op, op_span, rhs } => PExpr::BinOp(s, Box::new(pexpr(*lhs)), bin_op, op_span, Box::new(pexpr(*rhs))),
        ParsedExprKind::UnaryOp { un_op, op_span, expr } => PExpr::UnaryOp(s, un_op, op_span, Box::new(pexpr(*expr))),
        ParsedExprKind::Call { callee, args } => PExpr::Call(s, Box::new(pexpr(*callee)), pexprs(args@)),
        ParsedExprKind::Index { base, index } => PExpr::Index(s, Box::new(pexpr(*base)), Box::new(pexpr(*index))),
        ParsedExprKind::Field { base, name } => PExpr::Field(s, Box::new(pexpr(*base)), name@),
        ParsedExprKind::Error => PExpr::Error(s),
    }
}

pub open spec fn pexprs(s: Seq<ParsedExpr>) -> Seq<PExpr>
    decreases s,
{
    if s.len() == 0 {
        Seq::empty()
    } else {
        pexprs(s.drop_last()).push(pexpr(s.last()))
    }
}

impl View for ParsedExpr {
    type V = PExpr;

    open spec fn view(&self) -> PExpr {
        pexpr(*self)
    }
}

impl ParsedExpr {
    /// A deep copy of the expression.
    #[verifier::loop_isolation(false)]
    pub fn duplicate(&self) -> (r: ParsedExpr)
        ensures
            r@ == self@,
        decreases self,
    {
        let kind = match &self.kind {
            ParsedExprKind::Name(n) => ParsedExprKind::Name(n.clone()),
            ParsedExprKind::Number(n) => ParsedExprKind::Number(n.clone()),
            ParsedExprKind::Str(n) => ParsedExprKind::Str(n.clone()),
            ParsedExprKind::Bool(b) => ParsedExprKind::Bool(*b),
            ParsedExprKind::BinOp { lhs, bin_op, op_span, rhs } => {
                let l = lhs.duplicate();
                let r = rhs.duplicate();
                ParsedExprKind::BinOp { lhs: Box::new(l), bin_op: *bin_op, op_span: *op_span, rhs: Box::new(r) }
            },
            ParsedExprKind::UnaryOp { un_op, op_span, expr } => {
                let e = expr.duplicate();
                ParsedExprKind::UnaryOp { un_op: *un_op, op_span: *op_span, expr: Box::new(e) }
            },
            ParsedExprKind::Call { callee, args } => {
                let c = callee.duplicate();
                let mut out: Vec<ParsedExpr> = Vec::new();
                let mut i: usize = 0;
                while i < args.len()
                    invariant
                        i <= args@.len(),
                        pexprs(out@) == pexprs(args@.take(i as int)),
                    decreases args@.len() - i,
                {
                    proof {
                        assert(decreases_to!(self => self.kind));
                        assert(decreases_to!(args => args@));
                        assert(decreases_to!(args@ => args@[i as int]));
                    }
                    let a = args[i].duplicate();
                    proof {
                        assert(out@.push(a).drop_last() =~= out@);
                        assert(args@.take(i + 1).drop_last() =~= args@.take(i as int));
                    }
                    out.push(a);
                    i = i + 1;
                }
                proof {
                    assert(args@.take(args@.len() as int) =~= args@);
                }
                ParsedExprKind::Call { callee: Box::new(c), args: out }
            },
            ParsedExprKind::Index { base, index } => {
                let b = base.duplicate();
                let x = index.duplicate();
                ParsedExprKind::Index { base: Box::new(b), index: Box::new(x) }
            },
            ParsedExprKind::Field { base, name } => {
                let b = base.duplicate();
                ParsedExprKind::Field { base: Box::new(b), name: name.clone() }
            },
            ParsedExprKind::Error => ParsedExprKind::Error,
        };
        ParsedExpr { span: self.span, kind }
    }
}

} // verus!

verus! {

/// A class or instance method, or a contract field: a declaration that
/// carries its own leading comments. For a method, `span` is the span of its
/// signature.
#[derive(Debug)]
pub struct ParsedMember {
    pub span: Span,
    pub leading_comments: Vec<SourceComment>,
}

#[derive(Debug)]
pub enum ParsedContractItemKind {
    Function,
    TypeAlias,
    Adt { ctors: Vec<ParsedAdtCtor> },
    Error,
}

/// An item declared inside a contract body.
#[derive(Debug)]
pub struct ParsedContractItem {
    pub span: Span,
    pub leading_comments: Vec<SourceComment>,
    pub kind: ParsedContractItemKind,
}

#[derive(Debug)]
pub enum ParsedTopItemKind {
    Import,
    Export,
    Pragma,
    TypeAlias,
    Adt { ctors: Vec<ParsedAdtCtor> },
    Class { methods: Vec<ParsedMember> },
    Instance { methods: Vec<ParsedMember> },
    Contract { fields: Vec<ParsedMember>, items: Vec<ParsedContractItem> },
    Function,
    Error,
}

/// A top-level item of a source file, as far as comment attachment needs it.
#[derive(Debug)]
pub struct ParsedTopItem {
    pub span: Span,
    pub leading_comments: Vec<SourceComment>,
    pub kind: ParsedTopItemKind,
}

/// The comments attached to a declaration that starts at `start`.
pub open spec fn comments_before(src: Seq<u8>, cs: Seq<SourceComment>, start: int) -> Seq<SourceComment> {
    directly_before_since(src, cs, start, 0, None)
}

/// Comments can be attached in front of each constructor of `ctors`.
pub open spec fn ctors_ok(src: Seq<u8>, cs: Seq<SourceComment>, ctors: Seq<ParsedAdtCtor>) -> bool {
    forall|i: int| 0 <= i < ctors.len() ==> #[trigger] ctor_ok(src, cs, ctors[i])
}

/// Each member starts outside every comment.
pub open spec fn members_ok(cs: Seq<SourceComment>, ms: Seq<ParsedMember>) -> bool {
    forall|i: int| 0 <= i < ms.len() ==> outside_comments(cs, (#[trigger] ms[i]).span.start as int)
}

/// `after` holds the members of `before`, each with its comments attached.
pub open spec fn members_attached(src: Seq<u8>, cs: Seq<SourceComment>, before: Seq<ParsedMember>, after: Seq<ParsedMember>) -> bool {
    &&& after.len() == before.len()
    &&& forall|i: int| 0 <= i < after.len() ==> {
        &&& (#[trigger] after[i]).span == before[i].span
        &&& after[i].leading_comments@ == comments_before(src, cs, before[i].span.start as int)
    }
}

pub open spec fn contract_item_ok(src: Seq<u8>, cs: Seq<SourceComment>, item: ParsedContractItem) -> bool {
    &&& outside_comments(cs, item.span.start as int)
    &&& item.kind matches ParsedContractItemKind::Adt { ctors } ==> ctors_ok(src, cs, ctors@)
}

/// `after` is `before` with its comments, and those of its constructors,
/// attached.
pub open spec fn contract_item_attached(src: Seq<u8>, cs: Seq<SourceComment>, before: ParsedContractItem, after: ParsedContractItem) -> bool {
    &&& after.span == before.span
    &&& after.leading_comments@ == comments_before(src, cs, before.span.start as int)
    &&& match (before.kind, after.kind) {
        (ParsedContractItemKind::Function, ParsedContractItemKind::Function) => true,
        (ParsedContractItemKind::TypeAlias, ParsedContractItemKind::TypeAlias) => true,
        (ParsedContractItemKind::Error, ParsedContractItemKind::Error) => true,
        (ParsedContractItemKind::Adt { ctors: b }, ParsedContractItemKind::Adt { ctors: a }) => ctors_attached(src, cs, b@, a@),
        _ => false,
    }
}

pub open spec fn top_item_ok(src: Seq<u8>, cs: Seq<SourceComment>, item: ParsedTopItem) -> bool {
    &&& outside_comments(cs, item.span.start as int)
    &&& match item.kind {
        ParsedTopItemKind::Adt { ctors } => ctors_ok(src, cs, ctors@),
        ParsedTopItemKind::Class { methods } => members_ok(cs, methods@),
        ParsedTopItemKind::Instance { methods } => members_ok(cs, methods@),
        ParsedTopItemKind::Contract { fields, items } => members_ok(cs, fields@) && forall|i: int|
            0 <= i < items@.len() ==> #[trigger] contract_item_ok(src, cs, items@[i]),
        _ => true,
    }
}

/// `after` is `before` with comments attached to it and to each nested
/// declaration that carries comments.
pub open spec fn top_item_attached(src: Seq<u8>, cs: Seq<SourceComment>, before: ParsedTopItem, after: ParsedTopItem) -> bool {
    &&& after.span == before.span
    &&& after.leading_comments@ == comments_before(src, cs, before.span.start as int)
    &&& match (before.kind, after.kind) {
        (ParsedTopItemKind::Import, ParsedTopItemKind::Import) => true,
        (ParsedTopItemKind::Export, ParsedTopItemKind::Export) => true,
        (ParsedTopItemKind::Pragma, ParsedTopItemKind::Pragma) => true,
        (ParsedTopItemKind::TypeAlias, ParsedTopItemKind::TypeAlias) => true,
        (ParsedTopItemKind::Function, ParsedTopItemKind::Function) => true,
        (ParsedTopItemKind::Error, ParsedTopItemKind::Error) => true,
        (ParsedTopItemKind::Adt { ctors: b }, ParsedTopItemKind::Adt { ctors: a }) => ctors_attached(src, cs, b@, a@),
        (ParsedTopItemKind::Class { methods: b }, ParsedTopItemKind::Class { methods: a }) => members_attached(src, cs, b@, a@),
        (ParsedTopItemKind::Instance { methods: b }, ParsedTopItemKind::Instance { methods: a }) => members_attached(src, cs, b@, a@),
        (ParsedTopItemKind::Contract { fields: bf, items: bi }, ParsedTopItemKind::Contract { fields: af, items: ai }) => {
            &&& members_attached(src, cs, bf@, af@)
            &&& ai@.len() == bi@.len()
            &&& forall|i: int| 0 <= i < ai@.len() ==> #[trigger] contract_item_attached(src, cs, bi@[i], ai@[i])
        },
        _ => false,
    }
}

fn attach_members(source: &[u8], comments: &[SourceComment], members: &mut Vec<ParsedMember>)
    requires
        comments_well_formed(source@, comments@),
        forall|i: int| 0 <= i < comments@.len() ==> #[trigger] comments@[i].span.start < comments@[i].span.end,
        members_ok(comments@, old(members)@),
    ensures
        members_attached(source@, comments@, old(members)@, final(members)@),
{
    let ghost initial = members@;
    let mut k: usize = 0;
    while k < members.len()
        invariant
            comments_well_formed(source@, comments@),
            forall|i: int| 0 <= i < comments@.len() ==> #[trigger] comments@[i].span.start < comments@[i].span.end,
            members@.len() == initial.len(),
            members_ok(comments@, initial),
            forall|i: int| k <= i < initial.len() ==> #[trigger] members@[i] == initial[i],
            forall|i: int| 0 <= i < k ==> {
                &&& (#[trigger] members@[i]).span == initial[i].span
                &&& members@[i].leading_comments@ == comments_before(source@, comments@, initial[i].span.start as int)
            },
        decreases members@.len() - k,
    {
        let span = members[k].span;
        proof {
            assert(outside_comments(comments@, initial[k as int].span.start as int));
        }
        let leading_comments = comments_directly_before(source, comments, span.start);
        members.set(k, ParsedMember { span, leading_comments });
        k = k + 1;
    }
}

fn attach_contract_item(source: &[u8], comments: &[SourceComment], item: &mut ParsedContractItem)
    requires
        comments_well_formed(source@, comments@),
        forall|i: int| 0 <= i < comments@.len() ==> #[trigger] comments@[i].span.start < comments@[i].span.end,
        contract_item_ok(source@, comments@, *old(item)),
    ensures
        contract_item_attached(source@, comments@, *old(item), *final(item)),
{
    item.leading_comments = comments_directly_before(source, comments, item.span.start);
    match &mut item.kind {
        ParsedContractItemKind::Adt { ctors } => {
            attach_adt_constructor_comments(source, comments, ctors);
        },
        _ => {},
    }
}

fn attach_top_item(source: &[u8], comments: &[SourceComment], item: &mut ParsedTopItem)
    requires
        comments_well_formed(source@, comments@),
        forall|i: int| 0 <= i < comments@.len() ==> #[trigger] comments@[i].span.start < comments@[i].span.end,
        top_item_ok(source@, comments@, *old(item)),
    ensures
        top_item_attached(source@, comments@, *old(item), *final(item)),
{
    item.leading_comments = comments_directly_before(source, comments, item.span.start);
    match &mut item.kind {
        ParsedTopItemKind::Adt { ctors } => {
            attach_adt_constructor_comments(source, comments, ctors);
        },
        ParsedTopItemKind::Class { methods } => {
            attach_members(source, comments, methods);
        },
        ParsedTopItemKind::Instance { methods } => {
            attach_members(source, comments, methods);
        },
        ParsedTopItemKind::Contract { fields, items } => {
            attach_members(source, comments, fields);
            let ghost initial = items@;
            let mut k: usize = 0;
            while k < items.len()
                invariant
                    comments_well_formed(source@, comments@),
                    forall|i: int| 0 <= i < comments@.len() ==> #[trigger] comments@[i].span.start < comments@[i].span.end,
                    items@.len() == initial.len(),
                    forall|i: int| 0 <= i < initial.len() ==> #[trigger] contract_item_ok(source@, comments@, initial[i]),
                    forall|i: int| k <= i < initial.len() ==> #[trigger] items@[i] == initial[i],
                    forall|i: int| 0 <= i < k ==> #[trigger] contract_item_attached(source@, comments@, initial[i], items@[i]),
                decreases items@.len() - k,
            {
                attach_contract_item(source, comments, &mut items[k]);
                k = k + 1;
            }
        },
        _ => {},
    }
}

/// Attaches to each top-level item, and to each nested declaration that
/// carries comments (constructors, methods, contract fields and contract
/// items), the comments directly before it.
pub fn attach_leading_comments(source: &[u8], comments: &[SourceComment], items: &mut Vec<ParsedTopItem>)
    requires
        comments_well_formed(source@, comments@),
        forall|i: int| 0 <= i < comments@.len() ==> #[trigger] comments@[i].span.start < comments@[i].span.end,
        forall|i: int| 0 <= i < old(items)@.len() ==> #[trigger] top_item_ok(source@, comments@, old(items)@[i]),
    ensures
        final(items)@.len() == old(items)@.len(),
        forall|i: int| 0 <= i < final(items)@.len() ==> #[trigger] top_item_attached(source@, comments@, old(items)@[i], final(items)@[i]),
{
    let ghost initial = items@;
    let mut k: usize = 0;
    while k < items.len()
        invariant
            comments_well_formed(source@, comments@),
            forall|i: int| 0 <= i < comments@.len() ==> #[trigger] comments@[i].span.start < comments@[i].span.end,
            items@.len() == initial.len(),
            forall|i: int| 0 <= i < initial.len() ==> #[trigger] top_item_ok(source@, comments@, initial[i]),
            forall|i: int| k <= i < initial.len() ==> #[trigger] items@[i] == initial[i],
            forall|i: int| 0 <= i < k ==> #[trigger] top_item_attached(source@, comments@, initial[i], items@[i]),
        decreases items@.len() - k,
    {
        attach_top_item(source, comments, &mut items[k]);
        k = k + 1;
    }
}

} // verus!
