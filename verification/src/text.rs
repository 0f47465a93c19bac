//! Character-level text model for the control channel: the whitespace
//! tokenizer and the ASCII case folding that command matching uses.

use vstd::prelude::*;

verus! {

/// The separator characters the tokenizer splits on: the ASCII whitespace
/// that can appear in a control line.
pub open spec fn is_space(c: char) -> bool {
    c == ' ' || c == '\t' || c == '\r' || c == '\n'
}

/// A line terminator character.
pub open spec fn is_line_break(c: char) -> bool {
    c == '\r' || c == '\n'
}

/// ASCII upper-casing of one character; every other character is kept.
pub open spec fn upper_char(c: char) -> char {
    if 'a' <= c && c <= 'z' {
        ((c as u8) - 32) as char
    } else {
        c
    }
}

/// ASCII upper-casing of a whole character sequence.
pub open spec fn upper(s: Seq<char>) -> Seq<char> {
    s.map_values(|c: char| upper_char(c))
}

/// A line with its trailing CR/LF terminators removed.
pub open spec fn strip_crlf(s: Seq<char>) -> Seq<char>
    decreases s.len(),
{
    if s.len() > 0 && is_line_break(s.last()) {
        strip_crlf(s.drop_last())
    } else {
        s
    }
}

/// Whitespace splitting, with `cur` the token read so far: a separator or
/// the end of the input emits `cur` when it is non-empty.
pub open spec fn split_ws(s: Seq<char>, cur: Seq<char>) -> Seq<Seq<char>>
    decreases s.len(),
{
    if s.len() == 0 {
        if cur.len() == 0 {
            Seq::empty()
        } else {
            seq![cur]
        }
    } else if is_space(s[0]) {
        if cur.len() == 0 {
            split_ws(s.drop_first(), Seq::empty())
        } else {
            seq![cur] + split_ws(s.drop_first(), Seq::empty())
        }
    } else {
        split_ws(s.drop_first(), cur.push(s[0]))
    }
}

/// The whitespace-delimited tokens of a line.
pub open spec fn tokens_of(s: Seq<char>) -> Seq<Seq<char>> {
    split_ws(s, Seq::empty())
}

/// Every token the splitter emits holds at least one character.
pub proof fn lemma_split_ws_tokens_nonempty(s: Seq<char>, cur: Seq<char>)
    ensures
        forall|k: int|
            0 <= k < split_ws(s, cur).len() ==> (#[trigger] split_ws(s, cur)[k]).len() > 0,
    decreases s.len(),
{
    if s.len() == 0 {
        if cur.len() > 0 {
            assert forall|k: int|
                0 <= k < split_ws(s, cur).len() implies (#[trigger] split_ws(s, cur)[k]).len()
                > 0 by {
                assert(split_ws(s, cur)[k] == cur);
            }
        }
    } else if is_space(s[0]) {
        lemma_split_ws_tokens_nonempty(s.drop_first(), Seq::empty());
        let rest = split_ws(s.drop_first(), Seq::empty());
        if cur.len() > 0 {
            assert forall|k: int|
                0 <= k < split_ws(s, cur).len() implies (#[trigger] split_ws(s, cur)[k]).len()
                > 0 by {
                if k == 0 {
                    assert(split_ws(s, cur)[k] == cur);
                } else {
                    assert(split_ws(s, cur)[k] == rest[k - 1]);
                }
            }
        } else {
            assert forall|k: int|
                0 <= k < split_ws(s, cur).len() implies (#[trigger] split_ws(s, cur)[k]).len()
                > 0 by {
                assert(split_ws(s, cur)[k] == rest[k]);
            }
        }
    } else {
        lemma_split_ws_tokens_nonempty(s.drop_first(), cur.push(s[0]));
        let rest = split_ws(s.drop_first(), cur.push(s[0]));
        assert forall|k: int|
            0 <= k < split_ws(s, cur).len() implies (#[trigger] split_ws(s, cur)[k]).len() > 0 by {
            assert(split_ws(s, cur)[k] == rest[k]);
        }
    }
}

/// Skipping a separator with no token under way leaves the tokens unchanged.
pub proof fn lemma_split_ws_skip_space(s: Seq<char>, i: int)
    requires
        0 <= i < s.len(),
        is_space(s[i]),
    ensures
        split_ws(s.skip(i), Seq::empty()) == split_ws(s.skip(i + 1), Seq::empty()),
{
    assert(s.skip(i)[0] == s[i]);
    assert(s.skip(i).drop_first() =~= s.skip(i + 1));
}

/// Reading one more non-separator character extends the current token.
pub proof fn lemma_split_ws_extend(s: Seq<char>, start: int, j: int)
    requires
        0 <= start <= j < s.len(),
        !is_space(s[j]),
    ensures
        split_ws(s.skip(j), s.subrange(start, j)) == split_ws(
            s.skip(j + 1),
            s.subrange(start, j + 1),
        ),
{
    assert(s.skip(j)[0] == s[j]);
    assert(s.skip(j).drop_first() =~= s.skip(j + 1));
    assert(s.subrange(start, j).push(s[j]) =~= s.subrange(start, j + 1));
}

/// At a separator or at the end of the input, the token under way is emitted
/// in front of whatever the rest of the input yields.
pub proof fn lemma_split_ws_emit(s: Seq<char>, start: int, j: int)
    requires
        0 <= start < j <= s.len(),
        j < s.len() ==> is_space(s[j]),
    ensures
        split_ws(s.skip(j), s.subrange(start, j)) == seq![s.subrange(start, j)] + split_ws(
            s.skip(j),
            Seq::empty(),
        ),
{
    let cur = s.subrange(start, j);
    assert(cur.len() > 0);
    if j == s.len() {
        assert(s.skip(j).len() == 0);
        assert(seq![cur] + split_ws(s.skip(j), Seq::empty()) =~= seq![cur]);
    } else {
        assert(s.skip(j)[0] == s[j]);
        lemma_split_ws_skip_space(s, j);
    }
}

/// Whether `c` is one of the separator characters.
pub fn char_is_space(c: char) -> (r: bool)
    ensures
        r == is_space(c),
{
    c == ' ' || c == '\t' || c == '\r' || c == '\n'
}

/// ASCII upper-casing of one character.
pub fn char_upper(c: char) -> (r: char)
    ensures
        r == upper_char(c),
{
    if 'a' <= c && c <= 'z' {
        (c as u8 - 32) as char
    } else {
        c
    }
}

/// Whether two strings are equal up to ASCII case.
pub fn eq_up_to_case(s: &str, t: &str) -> (r: bool)
    ensures
        r == (upper(s@) == upper(t@)),
{
    let ns = s.unicode_len();
    let nt = t.unicode_len();
    if ns != nt {
        proof {
            assert(upper(s@).len() == s@.len());
            assert(upper(t@).len() == t@.len());
        }
        return false;
    }
    let mut i: usize = 0;
    while i < ns
        invariant
            ns == s@.len(),
            ns == t@.len(),
            i <= ns,
            forall|j: int| 0 <= j < i ==> upper_char(s@[j]) == upper_char(t@[j]),
        decreases ns - i,
    {
        let a = char_upper(s.get_char(i));
        let b = char_upper(t.get_char(i));
        if a != b {
            proof {
                assert(upper(s@)[i as int] == upper_char(s@[i as int]));
                assert(upper(t@)[i as int] == upper_char(t@[i as int]));
            }
            return false;
        }
        i += 1;
    }
    proof {
        assert(upper(s@) =~= upper(t@)) by {
            assert(forall|j: int|
                0 <= j < s@.len() ==> upper(s@)[j] == upper(t@)[j]);
        }
    }
    true
}

/// A copy of `s` with its trailing CR/LF terminators removed.
pub fn strip_line(s: &str) -> (r: String)
    ensures
        r@ == strip_crlf(s@),
{
    let n = s.unicode_len();
    let mut end = n;
    proof {
        assert(s@.take(n as int) =~= s@);
    }
    loop
        invariant_except_break
            n == s@.len(),
            end <= n,
            strip_crlf(s@) == strip_crlf(s@.take(end as int)),
        ensures
            n == s@.len(),
            end <= n,
            strip_crlf(s@) == strip_crlf(s@.take(end as int)),
            end == 0 || !is_line_break(s@[end as int - 1]),
        decreases end,
    {
        if end == 0 {
            break;
        }
        let c = s.get_char(end - 1);
        if c == '\r' || c == '\n' {
            proof {
                let t = s@.take(end as int);
                assert(t.last() == s@[end as int - 1]);
                assert(t.drop_last() =~= s@.take(end as int - 1));
            }
            end = end - 1;
        } else {
            break;
        }
    }
    proof {
        let t = s@.take(end as int);
        if end == 0 {
            assert(t.len() == 0);
        } else {
            assert(t.last() == s@[end as int - 1]);
        }
        assert(strip_crlf(t) == t);
        assert(s@.take(end as int) =~= s@.subrange(0, end as int));
    }
    let sub = s.substring_char(0, end);
    sub.to_owned()
}

/// The whitespace-delimited tokens of `s`, each as an owned string.
pub fn tokenize(s: &str) -> (r: Vec<String>)
    ensures
        r.deep_view() == tokens_of(s@),
{
    let n = s.unicode_len();
    let mut r: Vec<String> = Vec::new();
    let mut i: usize = 0;
    proof {
        assert(s@.skip(0) =~= s@);
        assert(r.deep_view() =~= Seq::<Seq<char>>::empty());
        assert(r.deep_view() + split_ws(s@.skip(0), Seq::empty()) =~= tokens_of(s@));
    }
    while i < n
        invariant
            n == s@.len(),
            i <= n,
            tokens_of(s@) == r.deep_view() + split_ws(s@.skip(i as int), Seq::empty()),
        decreases n - i,
    {
        let c = s.get_char(i);
        if char_is_space(c) {
            proof {
                lemma_split_ws_skip_space(s@, i as int);
            }
            i += 1;
        } else {
            let start = i;
            let mut j = i + 1;
            proof {
                lemma_split_ws_extend(s@, start as int, start as int);
                assert(s@.subrange(start as int, start as int) =~= Seq::<char>::empty());
            }
            while j < n && !char_is_space(s.get_char(j))
                invariant
                    n == s@.len(),
                    start < j <= n,
                    tokens_of(s@) == r.deep_view() + split_ws(
                        s@.skip(j as int),
                        s@.subrange(start as int, j as int),
                    ),
                decreases n - j,
            {
                proof {
                    lemma_split_ws_extend(s@, start as int, j as int);
                }
                j += 1;
            }
            let tok = s.substring_char(start, j);
            let owned = tok.to_owned();
            proof {
                lemma_split_ws_emit(s@, start as int, j as int);
            }
            let ghost old_dv = r.deep_view();
            let ghost cur = s@.subrange(start as int, j as int);
            r.push(owned);
            proof {
                assert(r.deep_view() =~= old_dv + seq![cur]);
                assert((old_dv + seq![cur]) + split_ws(s@.skip(j as int), Seq::empty()) =~= old_dv
                    + (seq![cur] + split_ws(s@.skip(j as int), Seq::empty())));
            }
            i = j;
        }
    }
    proof {
        assert(s@.skip(n as int).len() == 0);
        assert(r.deep_view() + split_ws(s@.skip(n as int), Seq::empty()) =~= r.deep_view());
    }
    r
}

} // verus!
