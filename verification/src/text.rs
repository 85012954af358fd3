//! Verified text utilities: equality, prefix and substring tests, and
//! whitespace tokenization, each stated over `Seq<char>` views.

use vstd::prelude::*;
use vstd::string::StrSliceExecFns;

use crate::types::push_string;

verus! {

/// The Unicode `White_Space` code points, the set `str::split_whitespace`
/// splits on.
pub open spec fn is_space(c: char) -> bool {
    let n = c as int;
    ||| n == 0x09
    ||| n == 0x0A
    ||| n == 0x0B
    ||| n == 0x0C
    ||| n == 0x0D
    ||| n == 0x20
    ||| n == 0x85
    ||| n == 0xA0
    ||| n == 0x1680
    ||| (0x2000 <= n && n <= 0x200A)
    ||| n == 0x2028
    ||| n == 0x2029
    ||| n == 0x202F
    ||| n == 0x205F
    ||| n == 0x3000
}

/// Decides `is_space`.
pub fn is_space_char(c: char) -> (r: bool)
    ensures
        r == is_space(c),
{
    let n = c as u32;
    n == 0x09 || n == 0x0A || n == 0x0B || n == 0x0C || n == 0x0D || n == 0x20 || n == 0x85
        || n == 0xA0 || n == 0x1680 || (0x2000 <= n && n <= 0x200A) || n == 0x2028 || n == 0x2029
        || n == 0x202F || n == 0x205F || n == 0x3000
}

/// Character-for-character string equality.
pub fn str_eq(a: &str, b: &str) -> (r: bool)
    ensures
        r == (a@ == b@),
{
    let alen = a.unicode_len();
    let blen = b.unicode_len();
    if alen != blen {
        return false;
    }
    let mut i: usize = 0;
    while i < alen
        invariant
            alen == a@.len(),
            alen == b@.len(),
            i <= alen,
            forall|j: int| 0 <= j < i ==> a@[j] == b@[j],
        decreases alen - i,
    {
        if a.get_char(i) != b.get_char(i) {
            return false;
        }
        i += 1;
    }
    proof {
        assert(a@ =~= b@);
    }
    true
}

/// `n` occurs contiguously somewhere in `h`.
pub open spec fn contains_seq(h: Seq<char>, n: Seq<char>) -> bool {
    exists|i: int| 0 <= i <= h.len() - n.len() && #[trigger] h.subrange(i, i + n.len() as int)
        == n
}

/// Decides `contains_seq`.
pub fn str_contains(h: &str, n: &str) -> (r: bool)
    ensures
        r == contains_seq(h@, n@),
{
    let hlen = h.unicode_len();
    let nlen = n.unicode_len();
    if nlen > hlen {
        return false;
    }
    let mut i: usize = 0;
    while i <= hlen - nlen
        invariant
            hlen == h@.len(),
            nlen == n@.len(),
            nlen <= hlen,
            i <= hlen - nlen + 1,
            forall|k: int| 0 <= k < i ==> #[trigger] h@.subrange(k, k + n@.len() as int) != n@,
        decreases hlen - nlen + 1 - i,
    {
        let mut j: usize = 0;
        let mut mismatch = false;
        while j < nlen
            invariant
                hlen == h@.len(),
                nlen == n@.len(),
                nlen <= hlen,
                i <= hlen - nlen,
                j <= nlen,
                !mismatch ==> forall|t: int| 0 <= t < j ==> h@[i + t] == n@[t],
                mismatch ==> h@.subrange(i as int, i + n@.len() as int) != n@,
            decreases nlen - j,
        {
            if h.get_char(i + j) != n.get_char(j) {
                proof {
                    if h@.subrange(i as int, i + n@.len() as int) == n@ {
                        assert(h@.subrange(i as int, i + n@.len() as int)[j as int] == h@[i + j]);
                    }
                }
                mismatch = true;
                j = nlen;
            } else {
                j += 1;
            }
        }
        if !mismatch {
            proof {
                assert(h@.subrange(i as int, i + n@.len() as int) =~= n@);
            }
            return true;
        }
        proof {
            if n@.len() == 0 {
                assert(h@.subrange(i as int, i as int) =~= n@);
            }
        }
        i += 1;
    }
    proof {
        assert(forall|k: int| 0 <= k <= h@.len() - n@.len() ==> #[trigger] h@.subrange(
            k,
            k + n@.len() as int,
        ) != n@);
    }
    false
}

/// The maximal run of non-whitespace characters at the head of `s`.
pub open spec fn take_token(s: Seq<char>) -> Seq<char>
    decreases s.len(),
{
    if s.len() == 0 || is_space(s[0]) {
        Seq::empty()
    } else {
        seq![s[0]] + take_token(s.drop_first())
    }
}

/// The first whitespace-separated token of `s`, or empty if there is none:
/// what `str::split_whitespace` yields first.
pub open spec fn first_token(s: Seq<char>) -> Seq<char>
    decreases s.len(),
{
    if s.len() == 0 {
        Seq::empty()
    } else if is_space(s[0]) {
        first_token(s.drop_first())
    } else {
        take_token(s)
    }
}

/// Leading whitespace does not change the first token.
proof fn lemma_first_token_skip(s: Seq<char>, i: int)
    requires
        0 <= i <= s.len(),
        forall|j: int| 0 <= j < i ==> is_space(s[j]),
    ensures
        first_token(s) == first_token(s.skip(i)),
    decreases i,
{
    if i > 0 {
        assert(is_space(s[0]));
        assert(s.drop_first() =~= s.skip(1));
        lemma_first_token_skip(s.skip(1), i - 1);
        assert(s.skip(1).skip(i - 1) =~= s.skip(i));
    } else {
        assert(s.skip(0) =~= s);
    }
}

/// A token delimited by indices equals `take_token` of the remainder.
proof fn lemma_take_token_range(s: Seq<char>, end: int)
    requires
        0 <= end <= s.len(),
        forall|j: int| 0 <= j < end ==> !is_space(s[j]),
        end == s.len() || is_space(s[end]),
    ensures
        take_token(s) == s.subrange(0, end),
    decreases end,
{
    if end == 0 {
        assert(take_token(s) =~= s.subrange(0, 0));
    } else {
        assert(!is_space(s[0]));
        let rest = s.drop_first();
        assert(rest =~= s.skip(1));
        assert(forall|j: int| 0 <= j < end - 1 ==> rest[j] == s[j + 1] && !is_space(rest[j]));
        lemma_take_token_range(rest, end - 1);
        assert(take_token(s) == seq![s[0]] + rest.subrange(0, end - 1));
        assert(seq![s[0]] + rest.subrange(0, end - 1) =~= s.subrange(0, end));
    }
}

/// Returns the first whitespace-separated token of `s` (empty if none),
/// mirroring `s.split_whitespace().next()` with an empty-string default.
pub fn first_token_str(s: &str) -> (r: String)
    ensures
        r@ == first_token(s@),
{
    let len = s.unicode_len();
    let mut start: usize = 0;
    while start < len && is_space_char(s.get_char(start))
        invariant
            len == s@.len(),
            start <= len,
            forall|j: int| 0 <= j < start ==> is_space(s@[j]),
        decreases len - start,
    {
        start += 1;
    }
    proof {
        lemma_first_token_skip(s@, start as int);
    }
    let mut end: usize = start;
    while end < len && !is_space_char(s.get_char(end))
        invariant
            len == s@.len(),
            start <= end <= len,
            forall|j: int| start <= j < end ==> !is_space(s@[j]),
        decreases len - end,
    {
        end += 1;
    }
    let tok = s.substring_char(start, end);
    proof {
        let tail = s@.skip(start as int);
        if start == len {
            assert(tail =~= Seq::<char>::empty());
            assert(tok@ =~= Seq::<char>::empty());
        } else {
            assert(forall|j: int| 0 <= j < end - start ==> tail[j] == s@[j + start]);
            lemma_take_token_range(tail, end - start);
            assert(!is_space(tail[0]));
            assert(tail.subrange(0, end - start) =~= s@.subrange(start as int, end as int));
        }
    }
    tok.to_owned()
}

/// The whitespace-separated tokens of `s`, in order: what
/// `str::split_whitespace` yields.
pub open spec fn split_ws(s: Seq<char>) -> Seq<Seq<char>>
    decreases s.len(),
    via split_ws_decreases
{
    if s.len() == 0 {
        Seq::empty()
    } else if is_space(s[0]) {
        split_ws(s.drop_first())
    } else {
        seq![take_token(s)] + split_ws(s.skip(take_token(s).len() as int))
    }
}

#[via_fn]
proof fn split_ws_decreases(s: Seq<char>) {
    if s.len() > 0 && !is_space(s[0]) {
        lemma_take_token_len(s);
    }
}

/// A token is never longer than its text, and non-empty when the text
/// starts with a non-space character.
pub proof fn lemma_take_token_len(s: Seq<char>)
    ensures
        take_token(s).len() <= s.len(),
        s.len() > 0 && !is_space(s[0]) ==> take_token(s).len() >= 1,
    decreases s.len(),
{
    if s.len() > 0 && !is_space(s[0]) {
        lemma_take_token_len(s.drop_first());
    }
}

/// Splits `s` on whitespace into its tokens.
pub fn split_whitespace_tokens(s: &str) -> (r: Vec<String>)
    ensures
        r.deep_view() == split_ws(s@),
{
    let len = s.unicode_len();
    let mut r: Vec<String> = Vec::new();
    proof {
        assert(s@.skip(0) =~= s@);
        assert(r.deep_view() =~= Seq::<Seq<char>>::empty());
        assert(r.deep_view() + split_ws(s@) =~= split_ws(s@));
    }
    let mut i: usize = 0;
    while i < len
        invariant
            len == s@.len(),
            i <= len,
            split_ws(s@) == r.deep_view() + split_ws(s@.skip(i as int)),
        decreases len - i,
    {
        if is_space_char(s.get_char(i)) {
            proof {
                assert(s@.skip(i as int).drop_first() =~= s@.skip(i + 1));
            }
            i += 1;
        } else {
            let start = i;
            let mut end = i;
            while end < len && !is_space_char(s.get_char(end))
                invariant
                    len == s@.len(),
                    start <= end <= len,
                    forall|j: int| start <= j < end ==> !is_space(s@[j]),
                decreases len - end,
            {
                end += 1;
            }
            let tok = s.substring_char(start, end).to_owned();
            let ghost before = r.deep_view();
            proof {
                let tail = s@.skip(start as int);
                assert(forall|j: int| 0 <= j < end - start ==> tail[j] == s@[j + start]);
                lemma_take_token_range(tail, end - start);
                assert(tail.subrange(0, end - start) =~= s@.subrange(
                    start as int,
                    end as int,
                ));
                assert(take_token(tail) == tok@);
                lemma_take_token_len(tail);
                assert(!is_space(tail[0]));
                assert(tail.skip(end - start) =~= s@.skip(end as int));
                assert(split_ws(tail) == seq![tok@] + split_ws(s@.skip(end as int)));
            }
            push_string(&mut r, tok);
            proof {
                assert(before + (seq![tok@] + split_ws(s@.skip(end as int))) =~= (before.push(
                    tok@,
                )) + split_ws(s@.skip(end as int)));
            }
            i = end;
        }
    }
    proof {
        assert(s@.skip(len as int) =~= Seq::<char>::empty());
        assert(r.deep_view() + Seq::<Seq<char>>::empty() =~= r.deep_view());
    }
    r
}

} // verus!
