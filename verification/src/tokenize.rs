//! Whitespace-delimited tokenization of input text: the mathematical
//! definition of the token list of a string, and verified executable
//! functions that extract the tokens and count them.
use vstd::prelude::*;

verus! {

/// Whether the code point `u` is one of the Unicode white-space code points,
/// the set that `char::is_whitespace` recognises.
pub open spec fn is_ws_code(u: u32) -> bool {
    u == 0x20 || u == 0x09 || u == 0x0a || u == 0x0b || u == 0x0c || u == 0x0d || u == 0x85
        || u == 0xa0 || u == 0x1680 || (0x2000 <= u && u <= 0x200a) || u == 0x2028 || u == 0x2029
        || u == 0x202f || u == 0x205f || u == 0x3000
}

/// Whether `c` is a white-space character.
pub open spec fn is_ws_char(c: char) -> bool {
    is_ws_code(c as u32)
}

/// Decide whether `c` is a white-space character.
pub fn is_whitespace_char(c: char) -> (r: bool)
    ensures
        r == is_ws_char(c),
{
    let u: u32 = c as u32;
    u == 0x20 || u == 0x09 || u == 0x0a || u == 0x0b || u == 0x0c || u == 0x0d || u == 0x85
        || u == 0xa0 || u == 0x1680 || (0x2000 <= u && u <= 0x200a) || u == 0x2028 || u == 0x2029
        || u == 0x202f || u == 0x205f || u == 0x3000
}

/// The tokens of `s` from position `i` on, given that `cur` holds the
/// partial token read so far: maximal runs of non-white-space characters.
pub open spec fn tokens_from(s: Seq<char>, i: int, cur: Seq<char>) -> Seq<Seq<char>>
    decreases s.len() - i,
{
    if i < 0 || i >= s.len() {
        if cur.len() > 0 {
            seq![cur]
        } else {
            Seq::empty()
        }
    } else if is_ws_char(s[i]) {
        if cur.len() > 0 {
            seq![cur] + tokens_from(s, i + 1, Seq::empty())
        } else {
            tokens_from(s, i + 1, Seq::empty())
        }
    } else {
        tokens_from(s, i + 1, cur.push(s[i]))
    }
}

/// The whitespace-delimited tokens of `s`, in order.
pub open spec fn tokens(s: Seq<char>) -> Seq<Seq<char>> {
    tokens_from(s, 0, Seq::empty())
}

/// Split `s` into its whitespace-delimited tokens.
pub fn split_words(s: &str) -> (words: Vec<String>)
    ensures
        words.deep_view() == tokens(s@),
{
    let n: usize = s.unicode_len();
    let mut words: Vec<String> = Vec::new();
    let mut cur = String::new();
    let mut i: usize = 0;
    while i < n
        invariant
            n == s@.len(),
            i <= n,
            tokens(s@) == words.deep_view() + tokens_from(s@, i as int, cur@),
        decreases n - i,
    {
        let c = s.get_char(i);
        if is_whitespace_char(c) {
            if !cur.as_str().is_empty() {
                let ghost old_words = words.deep_view();
                let ghost old_cur = cur@;
                words.push(cur);
                cur = String::new();
                proof {
                    assert(words.deep_view() =~= old_words + seq![old_cur]);
                    assert(old_words + seq![old_cur] + tokens_from(s@, i + 1, Seq::empty())
                        =~= old_words + (seq![old_cur] + tokens_from(s@, i + 1, Seq::empty())));
                }
            } else {
                proof {
                    assert(cur@ =~= Seq::<char>::empty());
                }
            }
        } else {
            crate::strutil::push_char(&mut cur, c);
        }
        i = i + 1;
    }
    if !cur.as_str().is_empty() {
        let ghost old_words = words.deep_view();
        let ghost old_cur = cur@;
        words.push(cur);
        proof {
            assert(words.deep_view() =~= old_words + seq![old_cur]);
        }
    }
    proof {
        assert(words.deep_view() + Seq::<Seq<char>>::empty() =~= words.deep_view());
    }
    words
}

/// The number of whitespace-delimited tokens in `s`.
///
/// Every input yields a count; the count is exactly the length of the
/// token list of the input.
pub fn calculate_total_count(s: &str) -> (r: u64)
    ensures
        r == tokens(s@).len(),
{
    let n: usize = s.unicode_len();
    let mut count: u64 = 0;
    let mut in_word = false;
    let ghost mut cur: Seq<char> = Seq::empty();
    let mut i: usize = 0;
    while i < n
        invariant
            n == s@.len(),
            i <= n,
            count <= i,
            in_word ==> count < i,
            in_word <==> cur.len() > 0,
            tokens(s@).len() == count + tokens_from(s@, i as int, cur).len(),
        decreases n - i,
    {
        let c = s.get_char(i);
        if is_whitespace_char(c) {
            if in_word {
                count = count + 1;
                in_word = false;
            }
            proof {
                cur = Seq::empty();
            }
        } else {
            in_word = true;
            proof {
                cur = cur.push(s@[i as int]);
            }
        }
        i = i + 1;
    }
    if in_word {
        count = count + 1;
    }
    count
}

} // verus!
