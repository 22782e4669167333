//! Plain-text helpers over character sequences: Unicode whitespace, lines,
//! whitespace-separated fields, substring search and trimming, with the
//! meaning that std gives to `split("\n")`, `split_whitespace`, `contains`
//! and `trim`.

use vstd::prelude::*;

verus! {

/// The characters with the Unicode `White_Space` property, which std's
/// `char::is_whitespace` (and so `trim` and `split_whitespace`) uses.
pub open spec fn is_whitespace(c: char) -> bool {
    let u = c as u32;
    ||| 0x09 <= u && u <= 0x0D
    ||| u == 0x20 || u == 0x85 || u == 0xA0 || u == 0x1680
    ||| 0x2000 <= u && u <= 0x200A
    ||| u == 0x2028 || u == 0x2029 || u == 0x202F || u == 0x205F || u == 0x3000
}

/// Whether `c` is Unicode whitespace.
pub fn whitespace(c: char) -> (r: bool)
    ensures
        r == is_whitespace(c),
{
    let u = c as u32;
    (0x09 <= u && u <= 0x0D) || u == 0x20 || u == 0x85 || u == 0xA0 || u == 0x1680 || (0x2000
        <= u && u <= 0x200A) || u == 0x2028 || u == 0x2029 || u == 0x202F || u == 0x205F || u
        == 0x3000
}

/// The pieces of `s` between newline characters, as `split("\n")` gives
/// them: one more piece than there are newlines, empty pieces included.
pub open spec fn split_lines(s: Seq<char>) -> Seq<Seq<char>>
    decreases s.len(),
{
    if s.len() == 0 {
        seq![Seq::<char>::empty()]
    } else {
        let prev = split_lines(s.drop_last());
        if s.last() == '\n' {
            prev.push(Seq::<char>::empty())
        } else {
            prev.update(prev.len() - 1, prev.last().push(s.last()))
        }
    }
}

/// There is always at least one piece.
pub proof fn lemma_split_lines_nonempty(s: Seq<char>)
    ensures
        split_lines(s).len() >= 1,
    decreases s.len(),
{
    if s.len() > 0 {
        lemma_split_lines_nonempty(s.drop_last());
    }
}

/// The maximal runs of non-whitespace characters of `s`, in order, as
/// `split_whitespace` gives them.
pub open spec fn fields(s: Seq<char>) -> Seq<Seq<char>>
    decreases s.len(),
{
    if s.len() == 0 {
        Seq::<Seq<char>>::empty()
    } else {
        let prev = fields(s.drop_last());
        let c = s.last();
        if is_whitespace(c) {
            prev
        } else if s.len() >= 2 && !is_whitespace(s[s.len() - 2]) {
            prev.update(prev.len() - 1, prev.last().push(c))
        } else {
            prev.push(seq![c])
        }
    }
}

/// `pat` occurs in `s` starting at position `k`.
pub open spec fn occurs_at(s: Seq<char>, pat: Seq<char>, k: int) -> bool {
    0 <= k && k + pat.len() <= s.len() && s.subrange(k, k + pat.len()) == pat
}

/// `pat` occurs somewhere in `s`, as `contains` decides.
pub open spec fn contains_text(s: Seq<char>, pat: Seq<char>) -> bool {
    exists|k: int| #[trigger] occurs_at(s, pat, k)
}

/// `s` without its leading whitespace.
pub open spec fn trim_start(s: Seq<char>) -> Seq<char>
    decreases s.len(),
{
    if s.len() > 0 && is_whitespace(s[0]) {
        trim_start(s.drop_first())
    } else {
        s
    }
}

/// `s` without its trailing whitespace.
pub open spec fn trim_end(s: Seq<char>) -> Seq<char>
    decreases s.len(),
{
    if s.len() > 0 && is_whitespace(s.last()) {
        trim_end(s.drop_last())
    } else {
        s
    }
}

/// `s` without leading and trailing whitespace, as `trim` gives it.
pub open spec fn trim(s: Seq<char>) -> Seq<char> {
    trim_end(trim_start(s))
}

/// `String::push` of std: appends the character to the string.
#[verifier::external_body]
fn push_char(s: &mut String, c: char)
    ensures
        final(s)@ == old(s)@.push(c),
{
    s.push(c);
}

/// The characters `s[start..end]` as a string.
pub fn collect_range(s: &Vec<char>, start: usize, end: usize) -> (r: String)
    requires
        start <= end <= s@.len(),
    ensures
        r@ == s@.subrange(start as int, end as int),
{
    let mut r = String::new();
    let mut k = start;
    while k < end
        invariant
            start <= k <= end <= s@.len(),
            r@ == s@.subrange(start as int, k as int),
        decreases end - k,
    {
        push_char(&mut r, s[k]);
        assert(s@.subrange(start as int, k + 1) =~= s@.subrange(start as int, k as int).push(
            s@[k as int],
        ));
        k = k + 1;
    }
    r
}

/// Whether `pat` occurs in `s[start..end]`.
pub fn range_contains(s: &Vec<char>, start: usize, end: usize, pat: &Vec<char>) -> (r: bool)
    requires
        start <= end <= s@.len(),
    ensures
        r == contains_text(s@.subrange(start as int, end as int), pat@),
{
    let ghost seg = s@.subrange(start as int, end as int);
    let len = end - start;
    let plen = pat.len();
    if plen > len {
        assert forall|k: int| !occurs_at(seg, pat@, k) by {}
        return false;
    }
    if plen == 0 {
        assert(seg.subrange(0, 0) =~= pat@);
        assert(occurs_at(seg, pat@, 0));
        return true;
    }
    let mut k: usize = 0;
    while k <= len - plen
        invariant
            start <= end <= s@.len(),
            seg == s@.subrange(start as int, end as int),
            len == end - start,
            plen == pat@.len(),
            1 <= plen <= len,
            k <= len - plen + 1,
            forall|k2: int| 0 <= k2 < k ==> !#[trigger] occurs_at(seg, pat@, k2),
        decreases len - plen + 1 - k,
    {
        let mut m: usize = 0;
        let mut matched = true;
        while m < plen
            invariant
                start <= end <= s@.len(),
                seg == s@.subrange(start as int, end as int),
                len == end - start,
                plen == pat@.len(),
                k + plen <= len,
                m <= plen,
                matched ==> forall|m2: int| 0 <= m2 < m ==> seg[k + m2] == pat@[m2],
                !matched ==> !occurs_at(seg, pat@, k as int),
            decreases plen - m,
        {
            if matched && s[start + k + m] != pat[m] {
                matched = false;
                assert(seg.subrange(k as int, k + plen)[m as int] != pat@[m as int]);
            }
            m = m + 1;
        }
        if matched {
            assert(seg.subrange(k as int, k + plen) =~= pat@);
            assert(occurs_at(seg, pat@, k as int));
            return true;
        }
        k = k + 1;
    }
    assert forall|k2: int| !#[trigger] occurs_at(seg, pat@, k2) by {
        if 0 <= k2 < k {
        }
    }
    false
}

/// The field of index `index` of `s[start..end]`, `None` when there are not
/// that many fields.
pub fn range_field(s: &Vec<char>, start: usize, end: usize, index: usize) -> (r: Option<String>)
    requires
        start <= end <= s@.len(),
    ensures
        ({
            let f = fields(s@.subrange(start as int, end as int));
            match r {
                Some(x) => index < f.len() && x@ == f[index as int],
                None => f.len() <= index,
            }
        }),
{
    let ghost seg = s@.subrange(start as int, end as int);
    let len = end - start;
    let mut count: usize = 0;
    let mut in_field = false;
    let mut wanted = String::new();
    let mut k: usize = 0;
    while k < len
        invariant
            start <= end <= s@.len(),
            seg == s@.subrange(start as int, end as int),
            len == end - start,
            k <= len,
            count <= k,
            count == fields(seg.take(k as int)).len(),
            in_field == (k > 0 && !is_whitespace(seg[k - 1])),
            in_field ==> count >= 1,
            count > index ==> wanted@ == fields(seg.take(k as int))[index as int],
        decreases len - k,
    {
        let c = s[start + k];
        let ghost prev = fields(seg.take(k as int));
        let ghost t = seg.take(k as int + 1);
        assert(t.drop_last() =~= seg.take(k as int));
        assert(t.last() == c);
        assert(k >= 1 ==> t[t.len() - 2] == seg[k - 1]);
        if whitespace(c) {
            in_field = false;
        } else if in_field {
            if count - 1 == index {
                push_char(&mut wanted, c);
            }
        } else {
            count = count + 1;
            in_field = true;
            if count - 1 == index {
                wanted = String::new();
                push_char(&mut wanted, c);
                assert(wanted@ =~= seq![c]);
            }
        }
        k = k + 1;
    }
    assert(seg.take(len as int) =~= seg);
    if count > index {
        Some(wanted)
    } else {
        None
    }
}

/// The first position in `start..end` that holds no whitespace, or `end`.
fn skip_leading_whitespace(s: &Vec<char>, start: usize, end: usize) -> (a: usize)
    requires
        start <= end <= s@.len(),
    ensures
        start <= a <= end,
        trim_start(s@.subrange(start as int, end as int)) == s@.subrange(a as int, end as int),
{
    let mut i = start;
    while i < end && whitespace(s[i])
        invariant
            start <= i <= end <= s@.len(),
            trim_start(s@.subrange(start as int, end as int)) == trim_start(
                s@.subrange(i as int, end as int),
            ),
        decreases end - i,
    {
        assert(s@.subrange(i as int, end as int).drop_first() =~= s@.subrange(
            i + 1,
            end as int,
        ));
        i = i + 1;
    }
    i
}

/// The trimmed characters of `s[start..end]` as a string.
pub fn trim_range(s: &Vec<char>, start: usize, end: usize) -> (r: String)
    requires
        start <= end <= s@.len(),
    ensures
        r@ == trim(s@.subrange(start as int, end as int)),
{
    let a = skip_leading_whitespace(s, start, end);
    let mut j = end;
    while j > a && whitespace(s[j - 1])
        invariant
            start <= a <= j <= end <= s@.len(),
            trim_end(s@.subrange(a as int, end as int)) == trim_end(
                s@.subrange(a as int, j as int),
            ),
        decreases j - a,
    {
        assert(s@.subrange(a as int, j as int).drop_last() =~= s@.subrange(
            a as int,
            j - 1,
        ));
        j = j - 1;
    }
    collect_range(s, a, j)
}

} // verus!
