//! Character-level helpers: the character classes that the library's rules
//! are written in, splitting on whitespace, and decimal rendering of integers.

use vstd::prelude::*;

verus! {

/// `String::push` appends one character.
pub assume_specification[ String::push ](s: &mut String, ch: char)
    ensures
        final(s)@ == old(s)@.push(ch),
;

/// An ASCII letter, `A`-`Z` or `a`-`z`.
pub open spec fn is_ascii_letter(c: char) -> bool {
    ('A' <= c && c <= 'Z') || ('a' <= c && c <= 'z')
}

/// An ASCII decimal digit, `0`-`9`.
pub open spec fn is_ascii_digit(c: char) -> bool {
    '0' <= c && c <= '9'
}

/// An ASCII letter or digit.
pub open spec fn is_ascii_letter_or_digit(c: char) -> bool {
    is_ascii_letter(c) || is_ascii_digit(c)
}

/// A character with the Unicode `White_Space` property: the characters on
/// which a command line is split into words.
pub open spec fn is_white_space(c: char) -> bool {
    ||| ('\u{9}' <= c && c <= '\u{d}')
    ||| c == ' '
    ||| c == '\u{85}'
    ||| c == '\u{a0}'
    ||| c == '\u{1680}'
    ||| ('\u{2000}' <= c && c <= '\u{200a}')
    ||| c == '\u{2028}'
    ||| c == '\u{2029}'
    ||| c == '\u{202f}'
    ||| c == '\u{205f}'
    ||| c == '\u{3000}'
}

/// The words of `s`: its maximal runs of characters that are not white
/// space, in order.
pub open spec fn words(s: Seq<char>) -> Seq<Seq<char>>
    decreases s.len(),
{
    if s.len() == 0 {
        Seq::empty()
    } else {
        let c = s.last();
        let init = s.drop_last();
        let w = words(init);
        if is_white_space(c) {
            w
        } else if init.len() > 0 && !is_white_space(init.last()) && w.len() > 0 {
            w.update(w.len() - 1, w.last().push(c))
        } else {
            w.push(seq![c])
        }
    }
}

/// The character of the decimal digit `d`.
pub open spec fn digit_char(d: nat) -> char {
    ((48 + d) as u8) as char
}

/// The decimal digits of `n`, most significant first, without leading zeros.
pub open spec fn digits(n: nat) -> Seq<char>
    decreases n,
{
    if n < 10 {
        seq![digit_char(n)]
    } else {
        digits(n / 10).push(digit_char(n % 10))
    }
}

/// The decimal rendering of `n`, with a leading `-` when it is negative.
pub open spec fn decimal(n: int) -> Seq<char> {
    if n < 0 {
        seq!['-'] + digits((-n) as nat)
    } else {
        digits(n as nat)
    }
}

/// Whether `c` is an ASCII letter.
pub fn ascii_letter(c: char) -> (b: bool)
    ensures
        b == is_ascii_letter(c),
{
    ('A' <= c && c <= 'Z') || ('a' <= c && c <= 'z')
}

/// Whether `c` is an ASCII letter or digit.
pub fn ascii_letter_or_digit(c: char) -> (b: bool)
    ensures
        b == is_ascii_letter_or_digit(c),
{
    ascii_letter(c) || ('0' <= c && c <= '9')
}

/// Whether `c` is Unicode white space.
pub fn white_space(c: char) -> (b: bool)
    ensures
        b == is_white_space(c),
{
    ('\u{9}' <= c && c <= '\u{d}') || c == ' ' || c == '\u{85}' || c == '\u{a0}' || c
        == '\u{1680}' || ('\u{2000}' <= c && c <= '\u{200a}') || c == '\u{2028}' || c
        == '\u{2029}' || c == '\u{202f}' || c == '\u{205f}' || c == '\u{3000}'
}

/// The `Debug` rendering of a string: quoted, with special characters
/// escaped.
pub uninterp spec fn debug_quoted(s: Seq<char>) -> Seq<char>;

/// Renders `s` as `format!("{:?}", s)` does, through `<str as Debug>::fmt`.
#[verifier::external_body]
pub(crate) fn quoted(s: &str) -> (q: String)
    ensures
        q@ == debug_quoted(s@),
{
    format!("{:?}", s)
}

/// The characters of `s`, in order.
pub fn chars_of(s: &str) -> (v: Vec<char>)
    ensures
        v@ == s@,
{
    let mut v: Vec<char> = Vec::new();
    for c in it: s.chars()
        invariant
            v@ == it.seq().take(it.index() as int),
    {
        v.push(c);
    }
    v
}

/// The views of a vector of strings.
pub open spec fn views(v: Seq<String>) -> Seq<Seq<char>> {
    v.map_values(|s: String| s@)
}

/// Splits `s` into its words, as `str::split_whitespace` does.
pub fn split_words(s: &str) -> (ws: Vec<String>)
    ensures
        views(ws@) == words(s@),
{
    let cs = chars_of(s);
    let mut done: Vec<String> = Vec::new();
    let mut cur = String::new();
    let n = cs.len();
    let mut i: usize = 0;
    while i < n
        invariant
            n == cs@.len(),
            cs@ == s@,
            i <= n,
            cur@.len() > 0 <==> (i > 0 && !is_white_space(cs@[i - 1])),
            words(cs@.take(i as int)) == if cur@.len() > 0 {
                views(done@).push(cur@)
            } else {
                views(done@)
            },
        decreases n - i,
    {
        let c = cs[i];
        assert(cs@.take(i + 1).drop_last() == cs@.take(i as int));
        if white_space(c) {
            if cur.unicode_len() > 0 {
                let w = cur;
                cur = String::new();
                done.push(w);
                assert(views(done@) == views(done@.drop_last()).push(w@));
            }
        } else {
            let ghost before = cur@;
            cur.push(c);
            proof {
                if before.len() > 0 {
                    assert(views(done@).push(before).update(views(done@).len() as int, before.push(c))
                        =~= views(done@).push(cur@));
                } else {
                    assert(cur@ =~= seq![c]);
                }
            }
        }
        i = i + 1;
    }
    assert(cs@.take(n as int) == cs@);
    if cur.unicode_len() > 0 {
        done.push(cur);
        assert(views(done@) == views(done@.drop_last()).push(done@.last()@));
    }
    done
}

/// Whether `s` holds a character that is not white space.
pub open spec fn has_word(s: Seq<char>) -> bool {
    exists|i: int| 0 <= i < s.len() && !is_white_space(#[trigger] s[i])
}

/// `s` has words exactly when it holds a character that is not white space.
pub proof fn lemma_words_nonempty(s: Seq<char>)
    ensures
        words(s).len() > 0 <==> has_word(s),
    decreases s.len(),
{
    if s.len() > 0 {
        let init = s.drop_last();
        lemma_words_nonempty(init);
        if has_word(init) {
            let i = choose|i: int| 0 <= i < init.len() && !is_white_space(#[trigger] init[i]);
            assert(s[i] == init[i]);
        }
        if has_word(s) && is_white_space(s.last()) {
            let i = choose|i: int| 0 <= i < s.len() && !is_white_space(#[trigger] s[i]);
            assert(init[i] == s[i]);
        }
    }
}

/// Every word is non-empty and holds no white space.
pub proof fn lemma_words_are_words(s: Seq<char>)
    ensures
        forall|k: int|
            0 <= k < words(s).len() ==> (#[trigger] words(s)[k]).len() > 0 && forall|j: int|
                0 <= j < words(s)[k].len() ==> !is_white_space(#[trigger] words(s)[k][j]),
    decreases s.len(),
{
    if s.len() > 0 {
        let init = s.drop_last();
        let c = s.last();
        lemma_words_are_words(init);
        let w = words(init);
        if !is_white_space(c) {
            if init.len() > 0 && !is_white_space(init.last()) && w.len() > 0 {
                assert forall|j: int| 0 <= j < w.last().push(c).len() implies !is_white_space(
                    #[trigger] w.last().push(c)[j],
                ) by {
                    if j < w.last().len() {
                        assert(w[w.len() - 1][j] == w.last()[j]);
                    }
                }
            }
        }
    }
}

/// The number of places where a word starts in `s`: a character that is not
/// white space and is first or follows white space.
pub open spec fn word_starts(s: Seq<char>) -> nat
    decreases s.len(),
{
    if s.len() == 0 {
        0
    } else {
        let init = s.drop_last();
        let starts_here = !is_white_space(s.last()) && (init.len() == 0 || is_white_space(
            init.last(),
        ));
        word_starts(init) + if starts_here {
            1nat
        } else {
            0nat
        }
    }
}

/// Joined back together, the words of `s` are exactly the characters of `s`
/// that are not white space, in order: splitting drops white space and
/// nothing else.
pub proof fn law_words_keep_every_other_character(s: Seq<char>)
    ensures
        words(s).flatten() == s.filter(|c: char| !is_white_space(c)),
    decreases s.len(),
{
    reveal_with_fuel(Seq::<char>::filter, 1);
    words(s).lemma_flatten_and_flatten_alt_are_equivalent();
    if s.len() > 0 {
        let init = s.drop_last();
        let c = s.last();
        let w = words(init);
        law_words_keep_every_other_character(init);
        w.lemma_flatten_and_flatten_alt_are_equivalent();
        if !is_white_space(c) {
            if init.len() > 0 && !is_white_space(init.last()) && w.len() > 0 {
                let u = w.update(w.len() - 1, w.last().push(c));
                assert(u.drop_last() =~= w.drop_last());
                assert(w.flatten_alt() == w.drop_last().flatten_alt() + w.last());
                assert(u.flatten_alt() =~= w.flatten_alt().push(c));
            } else {
                let u = w.push(seq![c]);
                assert(u.drop_last() =~= w);
                assert(u.flatten_alt() =~= w.flatten_alt().push(c));
            }
        }
    }
}

/// There is one word for every place where a word starts: a word never
/// breaks between two adjacent characters that are not white space, and
/// never joins characters that white space separates.
pub proof fn law_words_are_maximal(s: Seq<char>)
    ensures
        words(s).len() == word_starts(s),
    decreases s.len(),
{
    if s.len() > 0 {
        let init = s.drop_last();
        law_words_are_maximal(init);
        lemma_words_nonempty(init);
        if init.len() > 0 && !is_white_space(init.last()) {
            assert(!is_white_space(init[init.len() - 1]));
        }
    }
}

/// Exactly the ASCII control characters tab, line feed, vertical tab, form
/// feed and carriage return, and the space, are white space among the ASCII
/// characters: no printable character but the space is.
pub proof fn law_ascii_white_space(c: char)
    requires
        (c as u32) < 128,
    ensures
        is_white_space(c) <==> ((c as u32) == 32 || (9 <= (c as u32) && (c as u32) <= 13)),
{
}

/// Beyond ASCII, white space is exactly the Unicode `White_Space` set:
/// U+0085, U+00A0, U+1680, U+2000 to U+200A, U+2028, U+2029, U+202F,
/// U+205F and U+3000.
pub proof fn law_unicode_white_space(c: char)
    requires
        (c as u32) >= 128,
    ensures
        is_white_space(c) <==> {
            let u = c as u32;
            ||| u == 0x85
            ||| u == 0xa0
            ||| u == 0x1680
            ||| (0x2000 <= u && u <= 0x200a)
            ||| u == 0x2028
            ||| u == 0x2029
            ||| u == 0x202f
            ||| u == 0x205f
            ||| u == 0x3000
        },
{
}

/// The ASCII letters are the 26 upper-case letters from code 65 and the 26
/// lower-case ones from code 97; the digits are the ten codes from 48.
pub proof fn law_ascii_letters_and_digits(c: char)
    ensures
        is_ascii_letter(c) <==> ((65 <= (c as u32) && (c as u32) < 65 + 26) || (97 <= (c as u32)
            && (c as u32) < 97 + 26)),
        is_ascii_digit(c) <==> (48 <= (c as u32) && (c as u32) < 48 + 10),
{
}

/// The number that a string of decimal digits stands for.
pub open spec fn digits_value(s: Seq<char>) -> int
    decreases s.len(),
{
    if s.len() == 0 {
        0
    } else {
        digits_value(s.drop_last()) * 10 + (s.last() as int - 48)
    }
}

/// The digits of `n` are decimal digit characters, read back as `n`, and
/// do not start with a zero unless `n` is zero.
pub proof fn law_digits_read_back(n: nat)
    ensures
        digits(n).len() > 0,
        forall|i: int| 0 <= i < digits(n).len() ==> is_ascii_digit(#[trigger] digits(n)[i]),
        digits_value(digits(n)) == n,
        n > 0 ==> digits(n)[0] != '0',
    decreases n,
{
    lemma_digit_char_code((n % 10) as nat);
    if n >= 10 {
        law_digits_read_back(n / 10);
        let d = digits(n / 10);
        assert(digits(n).drop_last() =~= d);
        assert(digits(n).last() == digit_char((n % 10) as nat));
        assert(n == (n / 10) * 10 + n % 10);
        assert(digits_value(digits(n)) == digits_value(d) * 10 + (digits(n).last() as int - 48));
        assert(digits_value(d) == n / 10);
        assert(digits(n).last() as int - 48 == n % 10);
        assert(digits(n)[0] == d[0]);
        assert forall|i: int| 0 <= i < digits(n).len() implies is_ascii_digit(
            #[trigger] digits(n)[i],
        ) by {
            if i < d.len() {
                assert(digits(n)[i] == d[i]);
            }
        }
    } else {
        assert(digits(n).drop_last() =~= Seq::<char>::empty());
        assert(digits_value(digits(n)) == digits_value(Seq::<char>::empty()) * 10 + (digits(n).last() as int - 48));
        assert(n % 10 == n);
    }
}

/// The character of a decimal digit has code 48 plus the digit.
proof fn lemma_digit_char_code(d: nat)
    requires
        d < 10,
    ensures
        digit_char(d) as int == 48 + d,
{
    let b = (48 + d) as u8;
    assert(b as int == 48 + d);
    assert((b as char) as int == b as int);
}

/// Appends the decimal rendering of `n` to `s`.
pub fn push_decimal(s: &mut String, n: i32)
    ensures
        final(s)@ == old(s)@ + decimal(n as int),
{
    if n < 0 {
        s.push('-');
        let magnitude: u32 = (0i64 - (n as i64)) as u32;
        push_digits(s, magnitude);
        assert(final(s)@ =~= old(s)@ + (seq!['-'] + digits(magnitude as nat)));
    } else {
        push_digits(s, n as u32);
    }
}

/// Appends the decimal digits of `n` to `s`.
pub fn push_digits(s: &mut String, n: u32)
    ensures
        final(s)@ == old(s)@ + digits(n as nat),
    decreases n,
{
    if n >= 10 {
        push_digits(s, n / 10);
    }
    let d: u8 = (n % 10) as u8;
    s.push((48u8 + d) as char);
}

} // verus!
