//! Text as a sequence of characters: whitespace, ASCII case folding,
//! trimming and splitting, each defined over `Seq` and computed over slices.

use vstd::prelude::*;

verus! {

/// The characters that Unicode marks `White_Space`.
pub open spec fn is_whitespace(c: char) -> bool {
    let n = c as u32;
    ||| 0x0009 <= n <= 0x000D
    ||| n == 0x0020
    ||| n == 0x0085
    ||| n == 0x00A0
    ||| n == 0x1680
    ||| 0x2000 <= n <= 0x200A
    ||| n == 0x2028
    ||| n == 0x2029
    ||| n == 0x202F
    ||| n == 0x205F
    ||| n == 0x3000
}

/// `c` with the ASCII letters `A` to `Z` mapped to `a` to `z`.
pub open spec fn lower_char(c: char) -> char {
    if 'A' <= c <= 'Z' {
        ((c as u8 + 32) as u8) as char
    } else {
        c
    }
}

/// `s` with every character folded by [`lower_char`].
pub open spec fn lower(s: Seq<char>) -> Seq<char> {
    Seq::new(s.len(), |i: int| lower_char(s[i]))
}

/// `s` without its leading whitespace.
pub open spec fn trim_start(s: Seq<char>) -> Seq<char>
    decreases s.len(),
{
    if s.len() > 0 && is_whitespace(s.first()) {
        trim_start(s.drop_first())
    } else {
        s
    }
}

/// `s` without its trailing whitespace.
pub open spec fn trim_end(s: Seq<char>) -> Seq<char>
    decreases s.len(),
{
    if s.len() > 0 && is_whitespace(s.last()) {
        trim_end(s.drop_last())
    } else {
        s
    }
}

/// `s` without its leading and trailing whitespace.
pub open spec fn trim(s: Seq<char>) -> Seq<char> {
    trim_end(trim_start(s))
}

/// The pieces of `s` between the occurrences of `sep`. There is always at
/// least one piece, and one more piece than there are separators.
pub open spec fn split<T>(s: Seq<T>, sep: T) -> Seq<Seq<T>>
    decreases s.len(),
{
    if s.len() == 0 {
        seq![Seq::empty()]
    } else {
        let init = split(s.drop_last(), sep);
        if s.last() == sep {
            init.push(Seq::empty())
        } else {
            init.update(init.len() - 1, init.last().push(s.last()))
        }
    }
}

/// The contents of each slice of `pieces`.
pub open spec fn views<T>(pieces: Seq<&[T]>) -> Seq<Seq<T>> {
    Seq::new(pieces.len(), |i: int| pieces[i]@)
}

/// There is always a piece.
pub proof fn lemma_split_nonempty<T>(s: Seq<T>, sep: T)
    ensures
        split(s, sep).len() >= 1,
    decreases s.len(),
{
    if s.len() > 0 {
        lemma_split_nonempty(s.drop_last(), sep);
    }
}

/// A separator between two texts parts their pieces: the pieces of the
/// whole are those of the first text, then those of the second.
pub proof fn lemma_split_concat<T>(a: Seq<T>, b: Seq<T>, sep: T)
    ensures
        split(a + seq![sep] + b, sep) == split(a, sep) + split(b, sep),
    decreases b.len(),
{
    let whole = a + seq![sep] + b;
    lemma_split_nonempty(a, sep);
    if b.len() == 0 {
        assert(whole.drop_last() == a);
        assert(whole.last() == sep);
        assert(split(b, sep) == seq![Seq::<T>::empty()]);
        assert(split(a, sep).push(Seq::empty()) == split(a, sep) + seq![Seq::<T>::empty()]);
    } else {
        let shorter = b.drop_last();
        assert(whole.drop_last() == a + seq![sep] + shorter);
        assert(whole.last() == b.last());
        lemma_split_concat(a, shorter, sep);
        lemma_split_nonempty(shorter, sep);
        let first = split(a, sep);
        let rest = split(shorter, sep);
        if b.last() == sep {
            assert((first + rest).push(Seq::empty()) == first + rest.push(Seq::empty()));
        } else {
            assert((first + rest).last() == rest.last());
            assert((first + rest).update((first + rest).len() - 1, rest.last().push(b.last()))
                == first + rest.update(rest.len() - 1, rest.last().push(b.last())));
        }
    }
}

/// A text without the separator is one piece.
pub proof fn lemma_split_single<T>(s: Seq<T>, sep: T)
    requires
        !s.contains(sep),
    ensures
        split(s, sep) == seq![s],
    decreases s.len(),
{
    if s.len() > 0 {
        assert forall|i: int| 0 <= i < s.drop_last().len() implies s.drop_last()[i] != sep by {
            assert(s.drop_last()[i] == s[i]);
            assert(s.contains(s[i]));
        }
        lemma_split_single(s.drop_last(), sep);
        assert(s.contains(s.last()));
        assert(s.drop_last().push(s.last()) == s);
        assert(seq![s.drop_last()].update(0, s) == seq![s]);
    } else {
        assert(s == Seq::<T>::empty());
    }
}

/// The lines joined into one text, with `sep` between one and the next.
pub open spec fn join<T>(pieces: Seq<Seq<T>>, sep: T) -> Seq<T>
    decreases pieces.len(),
{
    if pieces.len() == 0 {
        Seq::empty()
    } else if pieces.len() == 1 {
        pieces[0]
    } else {
        join(pieces.drop_last(), sep) + seq![sep] + pieces.last()
    }
}

/// Each of the pieces, folded.
pub open spec fn lower_each(pieces: Seq<Seq<char>>) -> Seq<Seq<char>> {
    Seq::new(pieces.len(), |i: int| lower(pieces[i]))
}

/// Folding and trimming can be done in either order: folding neither makes
/// nor unmakes whitespace.
pub proof fn lemma_trim_lower(s: Seq<char>)
    ensures
        trim(lower(s)) == lower(trim(s)),
{
    lemma_trim_start_lower(s);
    lemma_trim_end_lower(trim_start(s));
}

proof fn lemma_trim_start_lower(s: Seq<char>)
    ensures
        trim_start(lower(s)) == lower(trim_start(s)),
    decreases s.len(),
{
    if s.len() > 0 && is_whitespace(s.first()) {
        assert(lower(s).first() == lower_char(s.first()));
        assert(lower(s).drop_first() == lower(s.drop_first()));
        lemma_trim_start_lower(s.drop_first());
    } else if s.len() > 0 {
        assert(lower(s).first() == lower_char(s.first()));
    }
}

proof fn lemma_trim_end_lower(s: Seq<char>)
    ensures
        trim_end(lower(s)) == lower(trim_end(s)),
    decreases s.len(),
{
    if s.len() > 0 && is_whitespace(s.last()) {
        assert(lower(s).last() == lower_char(s.last()));
        assert(lower(s).drop_last() == lower(s.drop_last()));
        lemma_trim_end_lower(s.drop_last());
    } else if s.len() > 0 {
        assert(lower(s).last() == lower_char(s.last()));
    }
}

/// Folding and splitting can be done in either order, where the separator
/// is no letter: the pieces of the folded text are the folded pieces.
pub proof fn lemma_split_lower(s: Seq<char>, sep: char)
    requires
        !('A' <= sep <= 'Z'),
        !('a' <= sep <= 'z'),
    ensures
        split(lower(s), sep) == lower_each(split(s, sep)),
    decreases s.len(),
{
    lemma_split_nonempty(s, sep);
    if s.len() == 0 {
        assert(lower(s) == Seq::<char>::empty());
        assert(lower(Seq::<char>::empty()) == Seq::<char>::empty());
        assert(seq![Seq::<char>::empty()] == lower_each(seq![Seq::<char>::empty()]));
    } else {
        let init = split(s.drop_last(), sep);
        lemma_split_lower(s.drop_last(), sep);
        lemma_split_nonempty(s.drop_last(), sep);
        assert(lower(s).drop_last() == lower(s.drop_last()));
        assert(lower(s).last() == lower_char(s.last()));
        if s.last() == sep {
            assert(lower(Seq::<char>::empty()) == Seq::<char>::empty());
            assert(lower_each(init).push(Seq::empty()) == lower_each(init.push(Seq::empty())));
        } else {
            assert(lower_char(s.last()) != sep);
            let longer = init.last().push(s.last());
            assert(lower(longer) == lower(init.last()).push(lower_char(s.last())));
            assert(lower_each(init).update(init.len() - 1, lower(longer)) == lower_each(
                init.update(init.len() - 1, longer),
            ));
        }
    }
}

/// Whether `s` holds whitespace only.
pub open spec fn all_whitespace(s: Seq<char>) -> bool {
    forall|i: int| 0 <= i < s.len() ==> is_whitespace(#[trigger] s[i])
}

/// Whether `s` neither begins nor ends with whitespace.
pub open spec fn is_trimmed(s: Seq<char>) -> bool {
    s.len() > 0 ==> !is_whitespace(s.first()) && !is_whitespace(s.last())
}

/// Trimming takes the whitespace around a text away, and nothing else.
pub proof fn lemma_trim_padded(before: Seq<char>, core: Seq<char>, after: Seq<char>)
    requires
        all_whitespace(before),
        all_whitespace(after),
        is_trimmed(core),
    ensures
        trim(before + core + after) == core,
{
    lemma_trim_start_padded(before, core + after);
    assert(before + core + after == before + (core + after));
    if core.len() == 0 {
        assert(core + after == after);
        lemma_trim_start_padded(after, Seq::empty());
        assert(after + Seq::<char>::empty() == after);
        assert(trim_start(core + after) == Seq::<char>::empty());
    } else {
        assert((core + after).first() == core.first());
        lemma_trim_end_padded(core, after);
    }
}

proof fn lemma_trim_start_padded(before: Seq<char>, rest: Seq<char>)
    requires
        all_whitespace(before),
    ensures
        trim_start(before + rest) == trim_start(rest),
    decreases before.len(),
{
    if before.len() > 0 {
        assert((before + rest).first() == before[0]);
        assert((before + rest).drop_first() == before.drop_first() + rest);
        assert forall|i: int| 0 <= i < before.drop_first().len() implies is_whitespace(
            #[trigger] before.drop_first()[i],
        ) by {
            assert(before.drop_first()[i] == before[i + 1]);
        }
        lemma_trim_start_padded(before.drop_first(), rest);
    } else {
        assert(before + rest == rest);
    }
}

proof fn lemma_trim_end_padded(rest: Seq<char>, after: Seq<char>)
    requires
        all_whitespace(after),
    ensures
        trim_end(rest + after) == trim_end(rest),
    decreases after.len(),
{
    if after.len() > 0 {
        assert((rest + after).last() == after.last());
        assert((rest + after).drop_last() == rest + after.drop_last());
        assert forall|i: int| 0 <= i < after.drop_last().len() implies is_whitespace(
            #[trigger] after.drop_last()[i],
        ) by {
            assert(after.drop_last()[i] == after[i]);
        }
        lemma_trim_end_padded(rest, after.drop_last());
    } else {
        assert(rest + after == rest);
    }
}

/// Folding twice is folding once.
pub proof fn lemma_lower_idempotent(s: Seq<char>)
    ensures
        lower(lower(s)) == lower(s),
{
    assert forall|i: int| 0 <= i < s.len() implies lower_char(lower_char(s[i])) == lower_char(
        s[i],
    ) by {
        lemma_lower_char_fixed(s[i]);
    }
    assert(lower(lower(s)) =~= lower(s));
}

/// A folded character is no capital, and folding leaves it as it is.
pub proof fn lemma_lower_char_fixed(c: char)
    ensures
        lower_char(lower_char(c)) == lower_char(c),
        !('A' <= lower_char(c) <= 'Z'),
{
}

/// Whether `c` is whitespace.
pub fn whitespace(c: char) -> (r: bool)
    ensures
        r == is_whitespace(c),
{
    let n: u32 = c as u32;
    (0x0009 <= n && n <= 0x000D) || n == 0x0020 || n == 0x0085 || n == 0x00A0 || n == 0x1680 || (
    0x2000 <= n && n <= 0x200A) || n == 0x2028 || n == 0x2029 || n == 0x202F || n == 0x205F || n
        == 0x3000
}

/// `c` in lower case, where it is an ASCII letter.
pub fn to_lower(c: char) -> (r: char)
    ensures
        r == lower_char(c),
{
    if 'A' <= c && c <= 'Z' {
        let b: u8 = c as u8;
        (b + 32) as char
    } else {
        c
    }
}

/// The characters of `text`, in order.
pub fn chars_of(text: &str) -> (r: Vec<char>)
    ensures
        r@ == text@,
{
    let mut r: Vec<char> = Vec::new();
    for c in it: text.chars()
        invariant
            it.seq() == text@,
            r@ == text@.take(it.index()),
    {
        assert(text@.take(it.index() + 1) == text@.take(it.index()).push(c));
        r.push(c);
    }
    assert(text@.take(text@.len() as int) == text@);
    r
}

/// `String::push`: appends one character to the end of the string.
#[verifier::external_body]
fn push_char(text: &mut String, c: char)
    ensures
        final(text)@ == old(text)@.push(c),
{
    text.push(c)
}

/// A string that holds the characters of `chars`, in order.
pub fn string_of(chars: &[char]) -> (r: String)
    ensures
        r@ == chars@,
{
    let mut r = String::new();
    let mut i: usize = 0;
    while i < chars.len()
        invariant
            i <= chars.len(),
            r@ == chars@.take(i as int),
        decreases chars.len() - i,
    {
        assert(chars@.take(i + 1) == chars@.take(i as int).push(chars@[i as int]));
        push_char(&mut r, chars[i]);
        i += 1;
    }
    assert(chars@.take(chars@.len() as int) == chars@);
    r
}

/// Whether `text` holds exactly the characters of `literal`.
pub fn matches_str(text: &[char], literal: &str) -> (r: bool)
    ensures
        r == (text@ == literal@),
{
    let mut i: usize = 0;
    for c in it: literal.chars()
        invariant
            i == it.index(),
            i <= text.len(),
            it.seq() == literal@,
            text@.take(i as int) == literal@.take(i as int),
    {
        if i >= text.len() || text[i] != c {
            assert(text@ != literal@) by {
                if text@ == literal@ {
                    assert(literal@[i as int] == c);
                }
            }
            return false;
        }
        assert(text@.take(i + 1) == text@.take(i as int).push(text@[i as int]));
        assert(literal@.take(i + 1) == literal@.take(i as int).push(literal@[i as int]));
        i += 1;
    }
    assert(literal@.take(i as int) == literal@);
    if i == text.len() {
        assert(text@.take(i as int) == text@);
        true
    } else {
        false
    }
}

/// `text` with its ASCII letters in lower case.
pub fn lowercase(text: &[char]) -> (r: Vec<char>)
    ensures
        r@ == lower(text@),
{
    let mut r: Vec<char> = Vec::new();
    let mut i: usize = 0;
    while i < text.len()
        invariant
            i <= text.len(),
            r@ == lower(text@).take(i as int),
        decreases text.len() - i,
    {
        assert(lower(text@).take(i + 1) == lower(text@).take(i as int).push(
            lower_char(text@[i as int]),
        ));
        r.push(to_lower(text[i]));
        i += 1;
    }
    assert(lower(text@).take(text@.len() as int) == lower(text@));
    r
}

/// The part of `text` between its leading and its trailing whitespace.
pub fn trimmed(text: &[char]) -> (r: &[char])
    ensures
        r@ == trim(text@),
{
    let n: usize = text.len();
    let mut i: usize = 0;
    assert(text@.skip(0) == text@);
    while i < n && whitespace(text[i])
        invariant
            n == text.len(),
            i <= n,
            trim_start(text@) == trim_start(text@.skip(i as int)),
        decreases n - i,
    {
        assert(text@.skip(i as int).drop_first() == text@.skip(i + 1));
        i += 1;
    }
    let mut j: usize = n;
    assert(text@.skip(i as int) == text@.subrange(i as int, j as int));
    while j > i && whitespace(text[j - 1])
        invariant
            n == text.len(),
            i <= j <= n,
            trim(text@) == trim_end(text@.subrange(i as int, j as int)),
        decreases j,
    {
        assert(text@.subrange(i as int, j as int).drop_last() == text@.subrange(
            i as int,
            j - 1,
        ));
        j -= 1;
    }
    vstd::slice::slice_subrange(text, i, j)
}

/// The pieces of `text` between the occurrences of `sep`.
pub fn split_chars(text: &[char], sep: char) -> (r: Vec<&[char]>)
    ensures
        views(r@) == split(text@, sep),
{
    let mut r: Vec<&[char]> = Vec::new();
    let mut start: usize = 0;
    let mut i: usize = 0;
    assert(text@.take(0) == Seq::<char>::empty());
    assert(views(r@).push(text@.subrange(0, 0)) == split(text@.take(0), sep));
    while i < text.len()
        invariant
            start <= i <= text.len(),
            views(r@).push(text@.subrange(start as int, i as int)) == split(
                text@.take(i as int),
                sep,
            ),
        decreases text.len() - i,
    {
        let ghost before = views(r@);
        let ghost open = text@.subrange(start as int, i as int);
        assert(text@.take(i + 1).drop_last() == text@.take(i as int));
        assert(before.push(open).last() == open);
        if text[i] == sep {
            r.push(vstd::slice::slice_subrange(text, start, i));
            start = i + 1;
            assert(views(r@) == before.push(open));
            assert(text@.subrange(start as int, i + 1) == Seq::<char>::empty());
        } else {
            assert(text@.subrange(start as int, i + 1) == open.push(text@[i as int]));
            assert(before.push(open).update(before.len() as int, open.push(text@[i as int]))
                == before.push(open.push(text@[i as int])));
        }
        i += 1;
    }
    assert(text@.take(text@.len() as int) == text@);
    let ghost before = views(r@);
    r.push(vstd::slice::slice_subrange(text, start, i));
    assert(views(r@) == before.push(text@.subrange(start as int, i as int)));
    r
}

/// The pieces of `bytes` between the occurrences of `sep`.
pub fn split_bytes(bytes: &[u8], sep: u8) -> (r: Vec<&[u8]>)
    ensures
        views(r@) == split(bytes@, sep),
{
    let mut r: Vec<&[u8]> = Vec::new();
    let mut start: usize = 0;
    let mut i: usize = 0;
    assert(bytes@.take(0) == Seq::<u8>::empty());
    assert(views(r@).push(bytes@.subrange(0, 0)) == split(bytes@.take(0), sep));
    while i < bytes.len()
        invariant
            start <= i <= bytes.len(),
            views(r@).push(bytes@.subrange(start as int, i as int)) == split(
                bytes@.take(i as int),
                sep,
            ),
        decreases bytes.len() - i,
    {
        let ghost before = views(r@);
        let ghost open = bytes@.subrange(start as int, i as int);
        assert(bytes@.take(i + 1).drop_last() == bytes@.take(i as int));
        assert(before.push(open).last() == open);
        if bytes[i] == sep {
            r.push(vstd::slice::slice_subrange(bytes, start, i));
            start = i + 1;
            assert(views(r@) == before.push(open));
            assert(bytes@.subrange(start as int, i + 1) == Seq::<u8>::empty());
        } else {
            assert(bytes@.subrange(start as int, i + 1) == open.push(bytes@[i as int]));
            assert(before.push(open).update(before.len() as int, open.push(bytes@[i as int]))
                == before.push(open.push(bytes@[i as int])));
        }
        i += 1;
    }
    assert(bytes@.take(bytes@.len() as int) == bytes@);
    let ghost before = views(r@);
    r.push(vstd::slice::slice_subrange(bytes, start, i));
    assert(views(r@) == before.push(bytes@.subrange(start as int, i as int)));
    r
}

} // verus!
