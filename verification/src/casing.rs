//! Rewriting declared identifiers into the naming convention of the wire.
use vstd::prelude::*;

verus! {

/// The naming conventions that a declared identifier can be rewritten into
/// when it is put on the wire.
#[derive(Clone, Copy, Debug, PartialEq, Eq, Structural, Hash)]
pub enum Casing {
    /// The identifier as it was declared.
    Original,
    /// `fooBar`
    CamelCase,
    /// `FooBar`
    PascalCase,
    /// `foo_bar`
    SnakeCase,
    /// `foo-bar`
    KebabCase,
}

impl Default for Casing {
    fn default() -> (r: Self)
        ensures
            r == Casing::Original,
    {
        Casing::Original
    }
}

/// A lower-case letter of the Latin alphabet. Only these letters and their
/// upper-case forms have a case here; every other character is kept as it
/// is and sets no words apart.
pub open spec fn is_lower(c: char) -> bool {
    'a' <= c <= 'z'
}

/// An upper-case letter of the Latin alphabet.
pub open spec fn is_upper(c: char) -> bool {
    'A' <= c <= 'Z'
}

/// A decimal digit.
pub open spec fn is_digit(c: char) -> bool {
    '0' <= c <= '9'
}

/// A letter of the Latin alphabet.
pub open spec fn is_letter(c: char) -> bool {
    is_lower(c) || is_upper(c)
}

/// The characters that separate words and belong to none.
pub open spec fn is_delimiter(c: char) -> bool {
    c == '_' || c == '-'
}

/// Whether a new word starts between two adjacent characters of which
/// neither is a delimiter: where a lower-case letter is followed by an
/// upper-case one, and where a letter meets a digit.
pub open spec fn is_boundary(before: char, after: char) -> bool {
    ||| is_lower(before) && is_upper(after)
    ||| is_letter(before) && is_digit(after)
    ||| is_digit(before) && is_letter(after)
}

/// The lower-case form of an upper-case letter; any other character itself.
pub open spec fn to_lower(c: char) -> char {
    if is_upper(c) {
        ((c as u8) + 32) as char
    } else {
        c
    }
}

/// The upper-case form of a lower-case letter; any other character itself.
pub open spec fn to_upper(c: char) -> char {
    if is_lower(c) {
        ((c as u8) - 32) as char
    } else {
        c
    }
}

/// The words of an identifier, in order. A character that is no delimiter
/// belongs to the word of the character before it, unless that one is a
/// delimiter or a boundary lies between the two: then it starts a word.
pub open spec fn words(s: Seq<char>) -> Seq<Seq<char>>
    decreases s.len(),
{
    if s.len() == 0 {
        Seq::empty()
    } else {
        let before = words(s.drop_last());
        let c = s.last();
        if is_delimiter(c) {
            before
        } else if s.len() > 1 && !is_delimiter(s[s.len() - 2]) && !is_boundary(
            s[s.len() - 2],
            c,
        ) {
            before.drop_last().push(before.last().push(c))
        } else {
            before.push(seq![c])
        }
    }
}

/// A word in lower case, with an upper-case first letter if `capital`.
pub open spec fn styled_word(word: Seq<char>, capital: bool) -> Seq<char> {
    Seq::new(
        word.len(),
        |i: int|
            if i == 0 && capital {
                to_upper(word[i])
            } else {
                to_lower(word[i])
            },
    )
}

/// Whether the word at `index` starts with a capital in `casing`.
pub open spec fn is_capital(casing: Casing, index: int) -> bool {
    casing == Casing::PascalCase || (casing == Casing::CamelCase && index > 0)
}

/// What stands between two words in `casing`.
pub open spec fn separator(casing: Casing) -> Seq<char> {
    match casing {
        Casing::SnakeCase => seq!['_'],
        Casing::KebabCase => seq!['-'],
        _ => Seq::empty(),
    }
}

/// The words, each written as `casing` asks for at its place.
pub open spec fn styled_words(words: Seq<Seq<char>>, casing: Casing) -> Seq<Seq<char>> {
    Seq::new(words.len(), |k: int| styled_word(words[k], is_capital(casing, k)))
}

/// The words in order, with `sep` between each two.
pub open spec fn join(words: Seq<Seq<char>>, sep: Seq<char>) -> Seq<char>
    decreases words.len(),
{
    if words.len() == 0 {
        Seq::empty()
    } else if words.len() == 1 {
        words[0]
    } else {
        join(words.drop_last(), sep) + sep + words.last()
    }
}

/// The identifier `s` in the convention `casing`.
pub open spec fn spec_convert(s: Seq<char>, casing: Casing) -> Seq<char> {
    if casing == Casing::Original {
        s
    } else {
        join(styled_words(words(s), casing), separator(casing))
    }
}

/// The views of a sequence of words.
pub open spec fn words_view(words: Seq<Vec<char>>) -> Seq<Seq<char>> {
    words.map_values(|w: Vec<char>| w@)
}

fn lower(c: char) -> (r: char)
    ensures
        r == to_lower(c),
{
    if c >= 'A' && c <= 'Z' {
        ((c as u8) + 32) as char
    } else {
        c
    }
}

fn upper(c: char) -> (r: char)
    ensures
        r == to_upper(c),
{
    if c >= 'a' && c <= 'z' {
        ((c as u8) - 32) as char
    } else {
        c
    }
}

fn delimiter(c: char) -> (r: bool)
    ensures
        r == is_delimiter(c),
{
    c == '_' || c == '-'
}

fn boundary(before: char, after: char) -> (r: bool)
    ensures
        r == is_boundary(before, after),
{
    let before_lower = before >= 'a' && before <= 'z';
    let before_letter = before_lower || (before >= 'A' && before <= 'Z');
    let before_digit = before >= '0' && before <= '9';
    let after_upper = after >= 'A' && after <= 'Z';
    let after_letter = after_upper || (after >= 'a' && after <= 'z');
    let after_digit = after >= '0' && after <= '9';
    (before_lower && after_upper) || (before_letter && after_digit) || (before_digit
        && after_letter)
}

/// Splits an identifier into its words.
pub fn split_words(s: &str) -> (r: Vec<Vec<char>>)
    ensures
        words_view(r@) == words(s@),
{
    let mut done: Vec<Vec<char>> = Vec::new();
    let mut current: Vec<char> = Vec::new();
    let mut before: char = '_';
    for c in it: s.chars()
        invariant
            it.seq() == s@,
            it.index() > 0 ==> before == s@[it.index() - 1],
            it.index() == 0 ==> before == '_',
            current.len() == 0 <==> is_delimiter(before),
            words(s@.take(it.index() as int)) == if current.len() == 0 {
                words_view(done@)
            } else {
                words_view(done@).push(current@)
            },
    {
        let ghost i = it.index() as int;
        let ghost seen = s@.take(i);
        let ghost next = s@.take(i + 1);
        proof {
            assert(next.drop_last() =~= seen);
            assert(next.last() == c);
            if i > 0 {
                assert(next[next.len() - 2] == before);
            }
        }
        if delimiter(c) {
            if current.len() > 0 {
                let ghost d = words_view(done@);
                let ghost w = current@;
                done.push(current);
                current = Vec::new();
                assert(words_view(done@) =~= d.push(w));
            }
        } else if current.len() > 0 && !boundary(before, c) {
            let ghost d = words_view(done@);
            let ghost w = current@;
            current.push(c);
            assert(d.push(w).drop_last() =~= d);
        } else {
            if current.len() > 0 {
                let ghost d = words_view(done@);
                let ghost w = current@;
                done.push(current);
                current = Vec::new();
                assert(words_view(done@) =~= d.push(w));
            }
            current.push(c);
            assert(current@ =~= seq![c]);
        }
        before = c;
    }
    assert(s@.take(s@.len() as int) =~= s@);
    if current.len() > 0 {
        let ghost d = words_view(done@);
        let ghost w = current@;
        done.push(current);
        assert(words_view(done@) =~= d.push(w));
    }
    done
}

/// Appends `word` to `out`, in lower case but for a capital first letter
/// if `capital`.
fn push_styled(out: &mut String, word: &Vec<char>, capital: bool)
    ensures
        final(out)@ == old(out)@ + styled_word(word@, capital),
{
    let mut j: usize = 0;
    while j < word.len()
        invariant
            j <= word.len(),
            out@ == old(out)@ + styled_word(word@, capital).take(j as int),
        decreases word.len() - j,
    {
        let c = if j == 0 && capital {
            upper(word[j])
        } else {
            lower(word[j])
        };
        out.push(c);
        assert(styled_word(word@, capital).take(j + 1) =~= styled_word(word@, capital).take(
            j as int,
        ).push(c));
        j += 1;
    }
    assert(styled_word(word@, capital).take(word@.len() as int) =~= styled_word(word@, capital));
}

/// Rewrites `identifier` into the convention `casing`. The words of the
/// identifier are those that its delimiters (`_`, `-`), its changes from
/// lower to upper case and its changes between letters and digits set apart;
/// an identifier without any of these is one word.
pub fn convert(identifier: &str, casing: Casing) -> (r: String)
    ensures
        r@ == spec_convert(identifier@, casing),
{
    if casing == Casing::Original {
        return identifier.to_owned();
    }
    let words = split_words(identifier);
    let ghost styled = styled_words(words_view(words@), casing);
    let ghost sep = separator(casing);
    let mut out = String::new();
    let mut k: usize = 0;
    while k < words.len()
        invariant
            k <= words.len(),
            casing != Casing::Original,
            styled == styled_words(words_view(words@), casing),
            sep == separator(casing),
            out@ == join(styled.take(k as int), sep),
        decreases words.len() - k,
    {
        let ghost sofar = out@;
        if k > 0 {
            if casing == Casing::SnakeCase {
                out.push('_');
            } else if casing == Casing::KebabCase {
                out.push('-');
            }
        }
        assert(out@ =~= if k > 0 {
            sofar + sep
        } else {
            sofar
        });
        let capital = casing == Casing::PascalCase || (casing == Casing::CamelCase && k > 0);
        push_styled(&mut out, &words[k], capital);
        proof {
            let taken = styled.take(k + 1);
            assert(taken.drop_last() =~= styled.take(k as int));
            assert(taken.last() == styled_word(words[k as int]@, capital));
            if k == 0 {
                assert(out@ =~= taken[0]);
            }
        }
        k += 1;
    }
    assert(styled.take(words.len() as int) =~= styled);
    out
}

} // verus!
