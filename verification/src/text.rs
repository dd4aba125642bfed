//! Plain text: white space, words, joining, numbers and padding.
//!
//! Every function is specified over the sequence of characters of a string.

use vstd::prelude::*;

verus! {

/// `String::push` appends one character to the end of the string.
pub assume_specification[ String::push ](s: &mut String, c: char)
    ensures
        final(s)@ == old(s)@.push(c),
;

/// The characters with the Unicode property `White_Space`.
pub open spec fn white_space(c: char) -> bool {
    ||| '\u{9}' <= c <= '\u{D}'
    ||| c == '\u{20}'
    ||| c == '\u{85}'
    ||| c == '\u{A0}'
    ||| c == '\u{1680}'
    ||| '\u{2000}' <= c <= '\u{200A}'
    ||| c == '\u{2028}'
    ||| c == '\u{2029}'
    ||| c == '\u{202F}'
    ||| c == '\u{205F}'
    ||| c == '\u{3000}'
}

/// Tells whether a character is white space.
pub fn is_white_space(c: char) -> (r: bool)
    ensures
        r == white_space(c),
{
    ('\u{9}' <= c && c <= '\u{D}') || c == '\u{20}' || c == '\u{85}' || c == '\u{A0}' || c
        == '\u{1680}' || ('\u{2000}' <= c && c <= '\u{200A}') || c == '\u{2028}' || c == '\u{2029}'
        || c == '\u{202F}' || c == '\u{205F}' || c == '\u{3000}'
}

/// No character of `s` is white space.
pub open spec fn solid(s: Seq<char>) -> bool {
    forall|i: int| 0 <= i < s.len() ==> !white_space(#[trigger] s[i])
}

/// A word: a non-empty text without white space.
pub open spec fn is_word(s: Seq<char>) -> bool {
    s.len() > 0 && solid(s)
}

/// The length of the longest prefix of `s` without white space.
pub open spec fn head_len(s: Seq<char>) -> nat
    decreases s.len(),
{
    if s.len() == 0 || white_space(s[0]) {
        0
    } else {
        1 + head_len(s.drop_first())
    }
}

/// The maximal runs of characters of `s` that are not white space, in order.
pub open spec fn words(s: Seq<char>) -> Seq<Seq<char>>
    decreases s.len(),
{
    if s.len() == 0 {
        seq![]
    } else if white_space(s[0]) {
        words(s.drop_first())
    } else {
        let n = head_len(s) as int;
        if 0 < n <= s.len() {
            seq![s.take(n)] + words(s.skip(n))
        } else {
            seq![]
        }
    }
}

/// The texts of a sequence of strings.
pub open spec fn texts(v: Seq<String>) -> Seq<Seq<char>> {
    v.map_values(|s: String| s@)
}

/// The text of an optional string.
pub open spec fn opt_text(s: Option<String>) -> Option<Seq<char>> {
    match s {
        Some(t) => Some(t@),
        None => None,
    }
}

/// A word followed by white space, or by nothing, has the length of the word as its head.
proof fn lemma_head_len(w: Seq<char>, rest: Seq<char>)
    requires
        solid(w),
        rest.len() == 0 || white_space(rest[0]),
    ensures
        head_len(w + rest) == w.len(),
    decreases w.len(),
{
    if w.len() == 0 {
        assert(w + rest =~= rest);
    } else {
        assert((w + rest).drop_first() =~= w.drop_first() + rest);
        assert((w + rest)[0] == w[0]);
        assert(!white_space(w[0]));
        lemma_head_len(w.drop_first(), rest);
    }
}

/// A word followed by white space, or by nothing, is the first word.
pub proof fn lemma_words_head(w: Seq<char>, rest: Seq<char>)
    requires
        is_word(w),
        rest.len() == 0 || white_space(rest[0]),
    ensures
        words(w + rest) == seq![w] + words(rest),
{
    lemma_head_len(w, rest);
    assert((w + rest)[0] == w[0]);
    assert(!white_space(w[0]));
    assert((w + rest).take(w.len() as int) =~= w);
    assert((w + rest).skip(w.len() as int) =~= rest);
}

/// Every element of `words(s)` is a word.
pub proof fn lemma_words_are_words(s: Seq<char>)
    ensures
        forall|i: int| 0 <= i < words(s).len() ==> is_word(#[trigger] words(s)[i]),
    decreases s.len(),
{
    if s.len() > 0 {
        if white_space(s[0]) {
            lemma_words_are_words(s.drop_first());
            assert(words(s) == words(s.drop_first()));
        } else {
            lemma_head_is_solid(s);
            let n = head_len(s) as int;
            lemma_words_are_words(s.skip(n));
            assert forall|i: int| 0 <= i < words(s).len() implies is_word(
                #[trigger] words(s)[i],
            ) by {
                if i > 0 {
                    assert(words(s)[i] == words(s.skip(n))[i - 1]);
                } else {
                    assert(words(s)[0] == s.take(n));
                }
            }
        }
    }
}

/// The head of a text is within it and holds no white space.
proof fn lemma_head_is_solid(s: Seq<char>)
    ensures
        head_len(s) <= s.len(),
        solid(s.take(head_len(s) as int)),
    decreases s.len(),
{
    if s.len() > 0 && !white_space(s[0]) {
        lemma_head_is_solid(s.drop_first());
        let n = head_len(s) as int;
        let t = s.drop_first().take(n - 1);
        assert forall|i: int| 0 <= i < n implies !white_space(#[trigger] s.take(n)[i]) by {
            if i > 0 {
                assert(s.take(n)[i] == t[i - 1]);
            }
        }
    }
}

/// `parts` one after another, with `sep` between neighbours.
pub open spec fn joined(parts: Seq<Seq<char>>, sep: Seq<char>) -> Seq<char>
    decreases parts.len(),
{
    if parts.len() == 0 {
        seq![]
    } else if parts.len() == 1 {
        parts[0]
    } else {
        parts[0] + sep + joined(parts.drop_first(), sep)
    }
}

/// Splitting undoes joining: words that are joined by single spaces are found again.
pub proof fn law_words_of_joined(parts: Seq<Seq<char>>)
    requires
        forall|i: int| 0 <= i < parts.len() ==> is_word(#[trigger] parts[i]),
    ensures
        words(joined(parts, seq![' '])) == parts,
    decreases parts.len(),
{
    let sep = seq![' '];
    if parts.len() == 0 {
        assert(words(joined(parts, sep)) =~= parts);
    } else if parts.len() == 1 {
        lemma_words_head(parts[0], seq![]);
        assert(parts[0] + seq![] =~= parts[0]);
        assert(words(joined(parts, sep)) =~= parts);
    } else {
        let rest = joined(parts.drop_first(), sep);
        assert forall|i: int| 0 <= i < parts.drop_first().len() implies is_word(
            #[trigger] parts.drop_first()[i],
        ) by {
            assert(parts.drop_first()[i] == parts[i + 1]);
        }
        law_words_of_joined(parts.drop_first());
        lemma_words_head(parts[0], sep + rest);
        assert(parts[0] + sep + rest =~= parts[0] + (sep + rest));
        assert((sep + rest).drop_first() =~= rest);
        assert(words(joined(parts, sep)) =~= parts);
    }
}

/// Runs of white space, and white space at the ends, do not matter to the words of a text:
/// writing its words again with single spaces keeps them.
pub proof fn law_words_normalised(s: Seq<char>)
    ensures
        words(joined(words(s), seq![' '])) == words(s),
{
    lemma_words_are_words(s);
    law_words_of_joined(words(s));
}

/// One more part, at the end.
proof fn lemma_joined_push(parts: Seq<Seq<char>>, last: Seq<char>, sep: Seq<char>)
    requires
        parts.len() > 0,
    ensures
        joined(parts.push(last), sep) == joined(parts, sep) + sep + last,
    decreases parts.len(),
{
    let all = parts.push(last);
    assert(all.drop_first() =~= parts.drop_first().push(last));
    if parts.len() == 1 {
        assert(all.drop_first() =~= seq![last]);
        assert(joined(seq![last], sep) == last);
        assert(joined(all, sep) =~= joined(parts, sep) + sep + last);
    } else {
        lemma_joined_push(parts.drop_first(), last, sep);
        assert(joined(all, sep) =~= joined(parts, sep) + sep + last);
    }
}

/// Joins the parts from index `from` on, with `sep` between neighbours.
pub fn join_from(parts: &Vec<String>, from: usize, sep: &str) -> (r: String)
    requires
        from <= parts@.len(),
    ensures
        r@ == joined(texts(parts@).skip(from as int), sep@),
{
    let mut out: String = String::new();
    let mut i: usize = from;
    let ghost all = texts(parts@);
    assert(all.subrange(from as int, from as int) =~= seq![]);
    while i < parts.len()
        invariant
            from <= i <= parts@.len(),
            all == texts(parts@),
            out@ == joined(all.subrange(from as int, i as int), sep@),
        decreases parts@.len() - i,
    {
        let ghost before = all.subrange(from as int, i as int);
        assert(all.subrange(from as int, i + 1) =~= before.push(parts@[i as int]@));
        if i > from {
            proof {
                lemma_joined_push(before, parts@[i as int]@, sep@);
            }
            out.append(sep);
            out.append(parts[i].as_str());
        } else {
            out.append(parts[i].as_str());
            assert(out@ =~= parts@[i as int]@);
        }
        i += 1;
    }
    assert(all.subrange(from as int, i as int) =~= all.skip(from as int));
    out
}

/// Splits a text into its words.
pub fn split_words(s: &str) -> (r: Vec<String>)
    ensures
        texts(r@) == words(s@),
{
    let mut done: Vec<String> = Vec::new();
    let mut word: String = String::new();
    assert(word@ + s@.skip(0) =~= s@);
    for c in it: s.chars()
        invariant
            it.seq() == s@,
            solid(word@),
            words(s@) == texts(done@) + words(word@ + s@.skip(it.index() as int)),
    {
        let ghost i = it.index() as int;
        let ghost rest = s@.skip(i + 1);
        assert(c == s@[i]);
        assert(s@.skip(i) =~= seq![c] + rest);
        if is_white_space(c) {
            proof {
                assert((seq![c] + rest).drop_first() =~= rest);
                if word@.len() > 0 {
                    lemma_words_head(word@, s@.skip(i));
                } else {
                    assert(word@ + s@.skip(i) =~= s@.skip(i));
                }
            }
            if word.as_str().is_empty() {
            } else {
                let ghost before = texts(done@);
                done.push(word);
                assert(texts(done@) =~= before.push(word@));
                word = String::new();
            }
            assert(word@ + rest =~= rest);
        } else {
            let ghost before = word@;
            word.push(c);
            assert(before + s@.skip(i) =~= word@ + rest);
        }
    }
    assert(s@.skip(s@.len() as int) =~= seq![]);
    assert(word@ + seq![] =~= word@);
    if word.as_str().is_empty() {
    } else {
        proof {
            lemma_words_head(word@, seq![]);
        }
        let ghost before = texts(done@);
        done.push(word);
        assert(texts(done@) =~= before.push(word@));
    }
    done
}

/// The characters of a text.
fn chars_of(s: &str) -> (r: Vec<char>)
    ensures
        r@ == s@,
{
    let mut v: Vec<char> = Vec::new();
    for c in it: s.chars()
        invariant
            it.seq() == s@,
            v@ == s@.take(it.index() as int),
    {
        v.push(c);
    }
    assert(s@.take(s@.len() as int) =~= s@);
    v
}

/// The text of the characters from `from` up to `to`.
fn text_of(v: &Vec<char>, from: usize, to: usize) -> (r: String)
    requires
        from <= to <= v@.len(),
    ensures
        r@ == v@.subrange(from as int, to as int),
{
    let mut out: String = String::new();
    let mut i: usize = from;
    while i < to
        invariant
            from <= i <= to <= v@.len(),
            out@ == v@.subrange(from as int, i as int),
        decreases to - i,
    {
        out.push(v[i]);
        i += 1;
    }
    out
}

/// Tells whether two texts are the same.
pub fn same(a: &str, b: &str) -> (r: bool)
    ensures
        r == (a@ == b@),
{
    let x: Vec<char> = chars_of(a);
    let y: Vec<char> = chars_of(b);
    if x.len() != y.len() {
        return false;
    }
    assert(a@.subrange(0, a@.len() as int) =~= a@);
    occurs_at(&x, 0, &y)
}

/// `pattern` stands in `s` at index `i`.
pub open spec fn stands_at(s: Seq<char>, i: int, pattern: Seq<char>) -> bool {
    0 <= i && i + pattern.len() <= s.len() && s.subrange(i, i + pattern.len()) == pattern
}

/// `pattern` stands somewhere in `s`.
pub open spec fn mentions(s: Seq<char>, pattern: Seq<char>) -> bool {
    exists|i: int| stands_at(s, i, pattern)
}

fn occurs_at(s: &Vec<char>, i: usize, pattern: &Vec<char>) -> (r: bool)
    requires
        i <= s@.len(),
    ensures
        r == stands_at(s@, i as int, pattern@),
{
    if pattern.len() > s.len() - i {
        return false;
    }
    let mut k: usize = 0;
    while k < pattern.len()
        invariant
            k <= pattern@.len(),
            i + pattern@.len() <= s@.len() <= usize::MAX,
            forall|j: int| 0 <= j < k ==> s@[i + j] == pattern@[j],
        decreases pattern@.len() - k,
    {
        if s[i + k] != pattern[k] {
            assert(s@.subrange(i as int, i + pattern@.len())[k as int] != pattern@[k as int]);
            return false;
        }
        k += 1;
    }
    assert(s@.subrange(i as int, i + pattern@.len()) =~= pattern@);
    true
}

/// Tells whether `pattern` stands somewhere in `s`.
pub fn contains(s: &str, pattern: &str) -> (r: bool)
    ensures
        r == mentions(s@, pattern@),
{
    let text: Vec<char> = chars_of(s);
    let pat: Vec<char> = chars_of(pattern);
    let mut i: usize = 0;
    while i < text.len()
        invariant
            i <= text@.len(),
            text@ == s@,
            pat@ == pattern@,
            forall|j: int| 0 <= j < i ==> !stands_at(s@, j, pattern@),
        decreases text@.len() - i,
    {
        if occurs_at(&text, i, &pat) {
            return true;
        }
        i += 1;
    }
    occurs_at(&text, i, &pat)
}

/// `s` without the occurrences of `pattern`, which are found from left to right and do not
/// overlap.
pub open spec fn without(s: Seq<char>, pattern: Seq<char>) -> Seq<char>
    decreases s.len(),
{
    if s.len() == 0 || pattern.len() == 0 {
        s
    } else if stands_at(s, 0, pattern) {
        without(s.skip(pattern.len() as int), pattern)
    } else {
        seq![s[0]] + without(s.drop_first(), pattern)
    }
}

/// Removes every occurrence of `pattern`.
pub fn remove_all(s: &str, pattern: &str) -> (r: String)
    requires
        pattern@.len() > 0,
    ensures
        r@ == without(s@, pattern@),
{
    let text: Vec<char> = chars_of(s);
    let pat: Vec<char> = chars_of(pattern);
    let mut out: String = String::new();
    let mut i: usize = 0;
    assert(s@.skip(0) =~= s@);
    while i < text.len()
        invariant
            i <= text@.len(),
            text@ == s@,
            pat@ == pattern@,
            pattern@.len() > 0,
            without(s@, pattern@) == out@ + without(s@.skip(i as int), pattern@),
        decreases text@.len() - i,
    {
        let ghost rest = s@.skip(i as int);
        if occurs_at(&text, i, &pat) {
            assert(rest.subrange(0, pattern@.len() as int) =~= s@.subrange(
                i as int,
                i + pattern@.len(),
            ));
            assert(stands_at(rest, 0, pattern@));
            assert(rest.skip(pattern@.len() as int) =~= s@.skip(i + pattern@.len()));
            i += pat.len();
        } else {
            proof {
                if stands_at(rest, 0, pattern@) {
                    assert(rest.subrange(0, pattern@.len() as int) =~= s@.subrange(
                        i as int,
                        i + pattern@.len(),
                    ));
                }
            }
            assert(rest.drop_first() =~= s@.skip(i + 1));
            out.push(text[i]);
            i += 1;
        }
    }
    assert(s@.skip(i as int) =~= seq![]);
    out
}

/// `s` without the white space at its start.
pub open spec fn trimmed_start(s: Seq<char>) -> Seq<char>
    decreases s.len(),
{
    if s.len() > 0 && white_space(s[0]) {
        trimmed_start(s.drop_first())
    } else {
        s
    }
}

/// `s` without the white space at its end.
pub open spec fn trimmed_end(s: Seq<char>) -> Seq<char>
    decreases s.len(),
{
    if s.len() > 0 && white_space(s.last()) {
        trimmed_end(s.drop_last())
    } else {
        s
    }
}

/// `s` without the white space at its start and at its end.
pub open spec fn trimmed(s: Seq<char>) -> Seq<char> {
    trimmed_end(trimmed_start(s))
}

/// Removes the white space at both ends.
pub fn trim(s: &str) -> (r: String)
    ensures
        r@ == trimmed(s@),
{
    let text: Vec<char> = chars_of(s);
    let mut from: usize = 0;
    assert(s@.skip(0) =~= s@);
    while from < text.len() && is_white_space(text[from])
        invariant
            from <= text@.len(),
            text@ == s@,
            trimmed_start(s@) == trimmed_start(s@.skip(from as int)),
        decreases text@.len() - from,
    {
        assert(s@.skip(from as int).drop_first() =~= s@.skip(from + 1));
        from += 1;
    }
    let ghost body = s@.skip(from as int);
    let mut to: usize = text.len();
    assert(s@.subrange(from as int, to as int) =~= body);
    while to > from && is_white_space(text[to - 1])
        invariant
            from <= to <= text@.len(),
            text@ == s@,
            trimmed_end(body) == trimmed_end(s@.subrange(from as int, to as int)),
        decreases to,
    {
        assert(s@.subrange(from as int, to as int).drop_last() =~= s@.subrange(
            from as int,
            to - 1,
        ));
        to -= 1;
    }
    text_of(&text, from, to)
}

/// The digit of a number below ten.
pub open spec fn digit(d: nat) -> char {
    (48 + d) as char
}

/// The decimal notation of a number, without leading zeros.
pub open spec fn decimal(n: nat) -> Seq<char>
    decreases n,
{
    if n < 10 {
        seq![digit(n)]
    } else {
        decimal(n / 10).push(digit(n % 10))
    }
}

/// Writes a number in decimal notation.
pub fn number(n: u64) -> (r: String)
    ensures
        r@ == decimal(n as nat),
    decreases n,
{
    let mut out: String = String::new();
    if n >= 10 {
        out = number(n / 10);
    }
    let d: u8 = (n % 10) as u8;
    out.push((48 + d) as char);
    out
}

/// `c` is an ASCII digit.
pub open spec fn is_digit(c: char) -> bool {
    '0' <= c <= '9'
}

/// The number that a text of digits stands for.
pub open spec fn digits_value(s: Seq<char>) -> nat
    decreases s.len(),
{
    if s.len() == 0 {
        0
    } else {
        10 * digits_value(s.drop_last()) + (s.last() as int - 48) as nat
    }
}

/// All characters of `s` are ASCII digits.
pub open spec fn all_digits(s: Seq<char>) -> bool {
    forall|i: int| 0 <= i < s.len() ==> is_digit(#[trigger] s[i])
}

/// `s` without one leading plus sign.
pub open spec fn unsigned_part(s: Seq<char>) -> Seq<char> {
    if s.len() > 0 && s[0] == '+' {
        s.drop_first()
    } else {
        s
    }
}

/// The number that `s` stands for: digits, at least one, after at most one plus sign, whose
/// value fits in 32 bits.
pub open spec fn parsed_u32(s: Seq<char>) -> Option<u32> {
    let d = unsigned_part(s);
    if d.len() > 0 && all_digits(d) && digits_value(d) <= u32::MAX {
        Some(digits_value(d) as u32)
    } else {
        None
    }
}

/// A prefix of a text of digits stands for a smaller number.
proof fn lemma_digits_prefix(s: Seq<char>, n: int)
    requires
        0 <= n <= s.len(),
        all_digits(s),
    ensures
        digits_value(s.take(n)) <= digits_value(s),
    decreases s.len(),
{
    if n == s.len() {
        assert(s.take(n) =~= s);
    } else {
        assert(all_digits(s.drop_last()));
        lemma_digits_prefix(s.drop_last(), n);
        assert(s.drop_last().take(n) =~= s.take(n));
    }
}

/// Reads an unsigned number of 32 bits.
pub fn parse_u32(s: &str) -> (r: Option<u32>)
    ensures
        r == parsed_u32(s@),
{
    let text: Vec<char> = chars_of(s);
    let mut i: usize = 0;
    if text.len() > 0 && text[0] == '+' {
        i = 1;
    }
    let ghost d = unsigned_part(s@);
    let ghost off = i as int;
    assert(d =~= s@.skip(off));
    if i == text.len() {
        return None;
    }
    let mut value: u64 = 0;
    assert(d.take(0) =~= seq![]);
    while i < text.len()
        invariant
            off <= i <= text@.len(),
            0 <= off <= 1,
            text@ == s@,
            d == s@.skip(off),
            d == unsigned_part(s@),
            all_digits(d.take(i - off)),
            value == digits_value(d.take(i - off)),
            value <= u32::MAX,
        decreases text@.len() - i,
    {
        let c: char = text[i];
        assert(c == d[i - off]);
        assert(d.take(i - off + 1) =~= d.take(i - off).push(c));
        assert(d.take(i - off + 1).drop_last() =~= d.take(i - off));
        if c < '0' || c > '9' {
            return None;
        }
        value = 10 * value + (c as u64 - 48);
        assert(all_digits(d.take(i - off + 1)));
        if value > u32::MAX as u64 {
            proof {
                if all_digits(d) {
                    lemma_digits_prefix(d, i - off + 1);
                }
            }
            return None;
        }
        i += 1;
    }
    assert(d.take(i - off) =~= d);
    Some(value as u32)
}

/// The decimal notation of a number is a word of digits that stands for the number.
pub proof fn lemma_decimal(n: nat)
    ensures
        decimal(n).len() > 0,
        all_digits(decimal(n)),
        solid(decimal(n)),
        digits_value(decimal(n)) == n,
    decreases n,
{
    assert(decimal(n).last() as int == 48 + n % 10);
    if n < 10 {
        assert(decimal(n).drop_last() =~= seq![]);
        assert(digits_value(decimal(n).drop_last()) == 0);
    } else {
        lemma_decimal(n / 10);
        assert(decimal(n).drop_last() =~= decimal(n / 10));
    }
}

/// A number of at most `10^k - 1` takes at most `k` digits.
pub proof fn lemma_decimal_len(n: nat, k: nat)
    requires
        k > 0,
        n < vstd::arithmetic::power::pow(10, k),
    ensures
        decimal(n).len() <= k,
    decreases k,
{
    vstd::arithmetic::power::lemma_pow1(10);
    if n >= 10 {
        reveal(vstd::arithmetic::power::pow);
        assert(k > 1);
        lemma_decimal_len(n / 10, (k - 1) as nat);
    }
}

/// Reading undoes writing, for every number of 32 bits.
pub proof fn law_parse_of_decimal(n: u32)
    ensures
        parsed_u32(decimal(n as nat)) == Some(n),
{
    lemma_decimal(n as nat);
    assert(is_digit(decimal(n as nat)[0]));
}

/// `n` times the character `c`.
pub open spec fn copies(c: char, n: nat) -> Seq<char> {
    Seq::new(n, |i: int| c)
}

/// Appends `n` copies of a character.
pub fn push_copies(s: &mut String, c: char, n: usize)
    ensures
        final(s)@ == old(s)@ + copies(c, n as nat),
{
    let mut i: usize = 0;
    assert(s@ =~= old(s)@ + copies(c, 0));
    while i < n
        invariant
            i <= n,
            s@ == old(s)@ + copies(c, i as nat),
        decreases n - i,
    {
        s.push(c);
        i += 1;
        assert(s@ =~= old(s)@ + copies(c, i as nat));
    }
}

/// `s` with spaces after it, up to `width` characters; a longer `s` stays as it is.
pub open spec fn padded(s: Seq<char>, width: nat) -> Seq<char> {
    if s.len() < width {
        s + copies(' ', (width - s.len()) as nat)
    } else {
        s
    }
}

/// Appends a text that is padded with spaces to a width.
pub fn push_padded(out: &mut String, s: &str, width: usize)
    ensures
        final(out)@ == old(out)@ + padded(s@, width as nat),
{
    out.append(s);
    let n: usize = s.unicode_len();
    if n < width {
        push_copies(out, ' ', width - n);
        assert(out@ =~= old(out)@ + padded(s@, width as nat));
    }
}

/// The head of a text ends where the text does, or at white space.
proof fn lemma_head_ends(s: Seq<char>)
    ensures
        head_len(s) <= s.len(),
        head_len(s) < s.len() ==> white_space(s[head_len(s) as int]),
    decreases s.len(),
{
    if s.len() > 0 && !white_space(s[0]) {
        lemma_head_ends(s.drop_first());
    }
}

/// Text without white space is a single word, itself, and no text has no words.
pub proof fn law_word_is_itself(w: Seq<char>)
    requires
        forall|i: int| 0 <= i < w.len() ==> !white_space(#[trigger] w[i]),
    ensures
        w.len() > 0 ==> words(w) == seq![w],
        w.len() == 0 ==> words(w) == Seq::<Seq<char>>::empty(),
{
    if w.len() > 0 {
        lemma_words_head(w, seq![]);
        assert(w + seq![] =~= w);
        assert(words(w) =~= seq![w]);
    }
}

/// White space separates words: the words on both sides of any white space are the words of the
/// whole text, with none added, lost or changed.
pub proof fn law_words_split_at_white_space(a: Seq<char>, c: char, b: Seq<char>)
    requires
        white_space(c),
    ensures
        words(a + seq![c] + b) == words(a) + words(b),
    decreases a.len(),
{
    let s = a + seq![c] + b;
    if a.len() == 0 {
        assert(s.drop_first() =~= b);
        assert(s[0] == c);
        assert(words(a) + words(b) =~= words(b));
    } else if white_space(a[0]) {
        law_words_split_at_white_space(a.drop_first(), c, b);
        assert(s.drop_first() =~= a.drop_first() + seq![c] + b);
    } else {
        lemma_head_is_solid(a);
        lemma_head_ends(a);
        let n = head_len(a) as int;
        let w = a.take(n);
        let rest = a.skip(n);
        assert(a.drop_first() =~= a.skip(1));
        assert(n > 0);
        law_words_split_at_white_space(rest, c, b);
        let tail = rest + seq![c] + b;
        assert(s =~= w + tail);
        assert(white_space(tail[0])) by {
            if rest.len() > 0 {
                assert(tail[0] == a[n]);
            }
        }
        lemma_words_head(w, tail);
        assert(words(a) == seq![w] + words(rest));
        assert(seq![w] + (words(rest) + words(b)) =~= seq![w] + words(rest) + words(b));
    }
}

/// Joining can be done in parts: what is joined of two lists is what is joined of each, with one
/// separator between. Of one part nothing but the part is left, and of none nothing.
pub proof fn law_joined_in_parts(a: Seq<Seq<char>>, b: Seq<Seq<char>>, sep: Seq<char>)
    ensures
        a.len() == 0 ==> joined(a, sep) == Seq::<char>::empty(),
        a.len() == 1 ==> joined(a, sep) == a[0],
        a.len() > 0 && b.len() > 0 ==> joined(a + b, sep) == joined(a, sep) + sep + joined(b, sep),
    decreases b.len(),
{
    if a.len() > 0 && b.len() == 1 {
        assert(a + b =~= a.push(b[0]));
        lemma_joined_push(a, b[0], sep);
    } else if a.len() > 0 && b.len() > 1 {
        let init = b.drop_last();
        law_joined_in_parts(a, init, sep);
        assert(b =~= init.push(b.last()));
        assert(a + b =~= (a + init).push(b.last()));
        lemma_joined_push(init, b.last(), sep);
        lemma_joined_push(a + init, b.last(), sep);
        assert(joined(a + b, sep) =~= joined(a, sep) + sep + joined(b, sep));
    }
}

/// A pattern stands in a text exactly if the text is something, the pattern, and something.
pub proof fn law_mentions(s: Seq<char>, pattern: Seq<char>)
    ensures
        mentions(s, pattern) <==> exists|a: Seq<char>, b: Seq<char>|
            s == #[trigger] (a + pattern + b),
{
    if mentions(s, pattern) {
        let i = choose|i: int| stands_at(s, i, pattern);
        let a = s.take(i);
        let b = s.skip(i + pattern.len());
        assert(s =~= s.take(i) + s.subrange(i, i + pattern.len()) + s.skip(i + pattern.len()));
        assert(s == a + pattern + b);
    }
    if exists|a: Seq<char>, b: Seq<char>| s == #[trigger] (a + pattern + b) {
        let (a, b) = choose|a: Seq<char>, b: Seq<char>| s == #[trigger] (a + pattern + b);
        assert(s.subrange(a.len() as int, (a.len() + pattern.len()) as int) =~= pattern);
        assert(stands_at(s, a.len() as int, pattern));
    }
}

/// A text in which a pattern does not stand is left as it is when the pattern is removed.
pub proof fn law_without_nothing(s: Seq<char>, pattern: Seq<char>)
    requires
        !mentions(s, pattern),
    ensures
        without(s, pattern) == s,
    decreases s.len(),
{
    if s.len() > 0 && pattern.len() > 0 {
        let rest = s.drop_first();
        assert(!stands_at(s, 0, pattern));
        lemma_not_in_rest(s, pattern);
        law_without_nothing(rest, pattern);
        assert(seq![s[0]] + rest =~= s);
    }
}

/// What does not stand in a text does not stand in what is behind its first character.
proof fn lemma_not_in_rest(s: Seq<char>, pattern: Seq<char>)
    requires
        s.len() > 0,
        !mentions(s, pattern),
    ensures
        !mentions(s.drop_first(), pattern),
{
    let rest = s.drop_first();
    if mentions(rest, pattern) {
        let i = choose|i: int| stands_at(rest, i, pattern);
        assert(s.subrange(i + 1, i + 1 + pattern.len()) =~= rest.subrange(i, i + pattern.len()));
        assert(stands_at(s, i + 1, pattern));
    }
}

/// Where a pattern first stands in a text, removing it joins what is before it to what is left
/// of the text behind it.
pub proof fn law_without_first(a: Seq<char>, pattern: Seq<char>, b: Seq<char>)
    requires
        pattern.len() > 0,
        !mentions(a + pattern.drop_last(), pattern),
    ensures
        without(a + pattern + b, pattern) == a + without(b, pattern),
    decreases a.len(),
{
    let s = a + pattern + b;
    let n = pattern.len() as int;
    if a.len() == 0 {
        assert(s.subrange(0, n) =~= pattern);
        assert(stands_at(s, 0, pattern));
        assert(s.skip(n) =~= b);
        assert(a + without(b, pattern) =~= without(b, pattern));
    } else {
        let rest = a.drop_first();
        let upto = a + pattern.drop_last();
        lemma_not_in_rest(upto, pattern);
        assert(upto.drop_first() =~= rest + pattern.drop_last());
        law_without_first(rest, pattern, b);
        if stands_at(s, 0, pattern) {
            assert(upto.subrange(0, n) =~= s.subrange(0, n));
            assert(stands_at(upto, 0, pattern));
        }
        assert(s.drop_first() =~= rest + pattern + b);
        assert(s[0] == a[0]);
        assert(seq![a[0]] + (rest + without(b, pattern)) =~= a + without(b, pattern));
    }
}

/// All characters of `s` are white space.
pub open spec fn blank(s: Seq<char>) -> bool {
    forall|i: int| 0 <= i < s.len() ==> white_space(#[trigger] s[i])
}

proof fn lemma_trimmed_start(s: Seq<char>) -> (a: Seq<char>)
    ensures
        s == a + trimmed_start(s),
        blank(a),
        trimmed_start(s).len() > 0 ==> !white_space(trimmed_start(s)[0]),
    decreases s.len(),
{
    if s.len() > 0 && white_space(s[0]) {
        let a = lemma_trimmed_start(s.drop_first());
        assert(s =~= seq![s[0]] + s.drop_first());
        assert(s =~= (seq![s[0]] + a) + trimmed_start(s));
        seq![s[0]] + a
    } else {
        assert(s =~= seq![] + s);
        seq![]
    }
}

proof fn lemma_trimmed_end(s: Seq<char>) -> (b: Seq<char>)
    ensures
        s == trimmed_end(s) + b,
        blank(b),
        trimmed_end(s).len() > 0 ==> !white_space(trimmed_end(s).last()),
    decreases s.len(),
{
    if s.len() > 0 && white_space(s.last()) {
        let b = lemma_trimmed_end(s.drop_last());
        assert(s =~= s.drop_last().push(s.last()));
        assert(s =~= trimmed_end(s) + b.push(s.last()));
        b.push(s.last())
    } else {
        assert(s =~= s + seq![]);
        seq![]
    }
}

/// Trimming takes only white space from the ends of a text, and all of it.
pub proof fn law_trimmed(s: Seq<char>)
    ensures
        exists|a: Seq<char>, b: Seq<char>|
            blank(a) && blank(b) && s == #[trigger] (a + trimmed(s) + b),
        trimmed(s).len() > 0 ==> !white_space(trimmed(s)[0]) && !white_space(trimmed(s).last()),
{
    let a = lemma_trimmed_start(s);
    let t = trimmed_start(s);
    let b = lemma_trimmed_end(t);
    assert(s =~= a + trimmed(s) + b);
    if trimmed(s).len() > 0 {
        assert(t[0] == trimmed(s)[0]);
    }
}

/// The value of digits: each further digit counts ten times what is before it, and itself.
pub proof fn law_digits_value(s: Seq<char>, c: char)
    requires
        '0' <= c <= '9',
    ensures
        digits_value(seq![]) == 0,
        digits_value(s.push(c)) == 10 * digits_value(s) + (c as int - '0' as int),
{
    assert(s.push(c).drop_last() =~= s);
}

/// The decimal notation of a number is made of digits, has no leading zeros and stands for the
/// number.
pub proof fn law_decimal(n: nat)
    ensures
        decimal(n).len() > 0,
        forall|i: int| 0 <= i < decimal(n).len() ==> '0' <= #[trigger] decimal(n)[i] <= '9',
        decimal(n)[0] == '0' ==> decimal(n).len() == 1,
        digits_value(decimal(n)) == n,
    decreases n,
{
    lemma_decimal(n);
    assert(forall|i: int| 0 <= i < decimal(n).len() ==> is_digit(#[trigger] decimal(n)[i]));
    if n >= 10 {
        law_decimal(n / 10);
        assert(decimal(n)[0] == decimal(n / 10)[0]);
        if decimal(n / 10)[0] == '0' {
            let d = decimal(n / 10);
            assert(d.drop_last() =~= seq![]);
            assert(digits_value(d.drop_last()) == 0);
            assert(digits_value(d) == 0);
        }
    }
}

/// Reading a number: digits whose value fits are read, with or without a plus sign, and nothing
/// else is.
pub proof fn law_parsed_u32(s: Seq<char>)
    ensures
        s.len() > 0 && (forall|i: int| 0 <= i < s.len() ==> '0' <= #[trigger] s[i] <= '9')
            && digits_value(s) <= u32::MAX ==> {
            &&& parsed_u32(s) == Some(digits_value(s) as u32)
            &&& parsed_u32(seq!['+'] + s) == Some(digits_value(s) as u32)
        },
        parsed_u32(s) is Some && s[0] != '+' ==> {
            &&& s.len() > 0
            &&& forall|i: int| 0 <= i < s.len() ==> '0' <= #[trigger] s[i] <= '9'
            &&& digits_value(s) == parsed_u32(s)->0
        },
        parsed_u32(s) is Some && s[0] == '+' ==> {
            &&& s.len() > 1
            &&& forall|i: int| 1 <= i < s.len() ==> '0' <= #[trigger] s[i] <= '9'
            &&& digits_value(s.drop_first()) == parsed_u32(s)->0
        },
{
    assert((seq!['+'] + s).drop_first() =~= s);
    if parsed_u32(s) is Some {
        let d = unsigned_part(s);
        assert(forall|i: int| 0 <= i < d.len() ==> is_digit(#[trigger] d[i]));
        if s[0] == '+' {
            assert forall|i: int| 1 <= i < s.len() implies '0' <= #[trigger] s[i] <= '9' by {
                assert(is_digit(d[i - 1]));
            }
        }
    }
    if s.len() > 0 && (forall|i: int| 0 <= i < s.len() ==> '0' <= #[trigger] s[i] <= '9') {
        assert('0' <= s[0] <= '9');
        assert(all_digits(s));
    }
}

/// Copies of a character are as many as asked for, and nothing else.
pub proof fn law_copies(c: char, n: nat)
    ensures
        copies(c, n).len() == n,
        forall|i: int| 0 <= i < n ==> #[trigger] copies(c, n)[i] == c,
{
}

/// A padded text starts with the whole text; behind it are only spaces, and just as many as the
/// width asks for.
pub proof fn law_padded(s: Seq<char>, width: nat)
    ensures
        s.len() < width ==> padded(s, width).len() == width,
        s.len() >= width ==> padded(s, width).len() == s.len(),
        padded(s, width).take(s.len() as int) == s,
        forall|i: int| s.len() <= i < width ==> #[trigger] padded(s, width)[i] == ' ',
{
    assert(padded(s, width).take(s.len() as int) =~= s);
}

/// The texts of strings are as many as the strings, and each is that of its string.
pub proof fn law_texts(v: Seq<String>, o: Option<String>)
    ensures
        texts(v).len() == v.len(),
        forall|i: int| 0 <= i < v.len() ==> #[trigger] texts(v)[i] == v[i]@,
        opt_text(o) is Some <==> o is Some,
        o is Some ==> opt_text(o)->0 == o->0@,
{
}

} // verus!
