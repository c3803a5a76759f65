//! Small operations on character sequences that the record builders share.

use vstd::prelude::*;
use vstd::string::StringExecFns;

verus! {

/// `String::push` appends one character to the end of the string.
pub assume_specification[ String::push ](s: &mut String, c: char)
    ensures
        final(s)@ == old(s)@.push(c),
;

/// The views of the elements of a list, in order.
pub open spec fn views<T: View>(v: Seq<T>) -> Seq<T::V> {
    Seq::new(v.len(), |i: int| v[i]@)
}

/// The character sequence of an optional string.
pub open spec fn opt_text(o: Option<String>) -> Option<Seq<char>> {
    match o {
        Some(s) => Some(s@),
        None => None,
    }
}

/// The parts in order, with `sep` between each two neighbours.
pub open spec fn join(parts: Seq<Seq<char>>, sep: Seq<char>) -> Seq<char>
    decreases parts.len(),
{
    if parts.len() == 0 {
        Seq::empty()
    } else if parts.len() == 1 {
        parts[0]
    } else {
        join(parts.drop_last(), sep) + sep + parts.last()
    }
}

/// `s` with every occurrence of `from` replaced by the characters of `to`.
pub open spec fn replace_char(s: Seq<char>, from: char, to: Seq<char>) -> Seq<char>
    decreases s.len(),
{
    if s.len() == 0 {
        Seq::empty()
    } else if s.last() == from {
        replace_char(s.drop_last(), from, to) + to
    } else {
        replace_char(s.drop_last(), from, to).push(s.last())
    }
}

/// Whether `c` is white space: one of the characters that Unicode gives the
/// property `White_Space`.
pub open spec fn is_blank(c: char) -> bool {
    let u = c as u32;
    ||| 0x09 <= u <= 0x0D
    ||| u == 0x20
    ||| u == 0x85
    ||| u == 0xA0
    ||| u == 0x1680
    ||| 0x2000 <= u <= 0x200A
    ||| u == 0x2028
    ||| u == 0x2029
    ||| u == 0x202F
    ||| u == 0x205F
    ||| u == 0x3000
}

/// Whether `s` is made of white space only.
pub open spec fn all_blank(s: Seq<char>) -> bool {
    forall|i: int| 0 <= i < s.len() ==> is_blank(#[trigger] s[i])
}

/// Whether `s` holds no white space.
pub open spec fn no_blank(s: Seq<char>) -> bool {
    forall|i: int| 0 <= i < s.len() ==> !is_blank(#[trigger] s[i])
}

/// `s` without the white space it starts with.
pub open spec fn skip_blanks(s: Seq<char>) -> Seq<char>
    decreases s.len(),
{
    if s.len() > 0 && is_blank(s[0]) {
        skip_blanks(s.skip(1))
    } else {
        s
    }
}

/// `s` without the characters other than white space that it starts with.
pub open spec fn skip_word(s: Seq<char>) -> Seq<char>
    decreases s.len(),
{
    if s.len() > 0 && !is_blank(s[0]) {
        skip_word(s.skip(1))
    } else {
        s
    }
}

/// `s` without its first word, where a word is a run of characters other
/// than white space: the white space before the word, the word and the white
/// space behind it are dropped, and what follows is kept as it is.
pub open spec fn drop_word(s: Seq<char>) -> Seq<char> {
    skip_blanks(skip_word(skip_blanks(s)))
}

/// `s` without its first `n` words; nothing where `s` has no more than `n`.
pub open spec fn drop_words(s: Seq<char>, n: nat) -> Seq<char>
    decreases n,
{
    if n == 0 {
        s
    } else {
        drop_word(drop_words(s, (n - 1) as nat))
    }
}

/// `s` followed by as many spaces as it takes to reach `width` characters.
pub open spec fn pad_to(s: Seq<char>, width: nat) -> Seq<char> {
    if s.len() >= width {
        s
    } else {
        s + Seq::new((width - s.len()) as nat, |i: int| ' ')
    }
}

/// The upper-case form of an ASCII letter; every other character is kept.
pub open spec fn upper_char(c: char) -> char {
    if 'a' <= c && c <= 'z' {
        ((c as u8) - 32) as char
    } else {
        c
    }
}

/// A sequence with every ASCII letter in upper case.
pub open spec fn upper(s: Seq<char>) -> Seq<char> {
    Seq::new(s.len(), |i: int| upper_char(s[i]))
}

/// Joining one part more appends the separator and the part, unless the part
/// is the first.
pub proof fn lemma_join_push(parts: Seq<Seq<char>>, sep: Seq<char>, part: Seq<char>)
    ensures
        join(parts.push(part), sep) == if parts.len() == 0 {
            part
        } else {
            join(parts, sep) + sep + part
        },
{
    assert(parts.push(part).drop_last() =~= parts);
}

/// White space in front of a text that starts with none is skipped, and
/// no more.
pub proof fn lemma_skip_blanks(blanks: Seq<char>, rest: Seq<char>)
    requires
        all_blank(blanks),
        rest.len() == 0 || !is_blank(rest[0]),
    ensures
        skip_blanks(blanks + rest) == rest,
    decreases blanks.len(),
{
    let s = blanks + rest;
    if blanks.len() == 0 {
        assert(s =~= rest);
    } else {
        assert(s[0] == blanks[0]);
        assert(s.skip(1) =~= blanks.skip(1) + rest);
        assert forall|i: int| 0 <= i < blanks.skip(1).len() implies is_blank(
            #[trigger] blanks.skip(1)[i],
        ) by {
            assert(blanks.skip(1)[i] == blanks[i + 1]);
        }
        lemma_skip_blanks(blanks.skip(1), rest);
    }
}

/// A word in front of a text that starts with white space, or that is
/// empty, is skipped, and no more.
pub proof fn lemma_skip_word(word: Seq<char>, rest: Seq<char>)
    requires
        no_blank(word),
        rest.len() == 0 || is_blank(rest[0]),
    ensures
        skip_word(word + rest) == rest,
    decreases word.len(),
{
    let s = word + rest;
    if word.len() == 0 {
        assert(s =~= rest);
    } else {
        assert(s[0] == word[0]);
        assert(s.skip(1) =~= word.skip(1) + rest);
        assert forall|i: int| 0 <= i < word.skip(1).len() implies !is_blank(
            #[trigger] word.skip(1)[i],
        ) by {
            assert(word.skip(1)[i] == word[i + 1]);
        }
        lemma_skip_word(word.skip(1), rest);
    }
}

/// A text that starts with white space, a word and white space again loses
/// these three to `drop_word` and keeps what follows, as long as that does
/// not start with white space.
pub proof fn lemma_drop_word(lead: Seq<char>, word: Seq<char>, gap: Seq<char>, rest: Seq<char>)
    requires
        all_blank(lead),
        word.len() > 0,
        no_blank(word),
        all_blank(gap),
        rest.len() == 0 || (gap.len() > 0 && !is_blank(rest[0])),
    ensures
        drop_word(lead + word + gap + rest) == rest,
{
    let s = lead + word + gap + rest;
    assert(s =~= lead + (word + (gap + rest)));
    assert((word + (gap + rest))[0] == word[0]);
    lemma_skip_blanks(lead, word + (gap + rest));
    if gap.len() > 0 {
        assert((gap + rest)[0] == gap[0]);
    } else {
        assert(gap + rest =~= Seq::<char>::empty());
    }
    lemma_skip_word(word, gap + rest);
    lemma_skip_blanks(gap, rest);
}

/// Replacing in a concatenation is replacing in both halves.
pub proof fn lemma_replace_concat(a: Seq<char>, b: Seq<char>, from: char, to: Seq<char>)
    ensures
        replace_char(a + b, from, to) == replace_char(a, from, to) + replace_char(b, from, to),
    decreases b.len(),
{
    if b.len() == 0 {
        assert(a + b =~= a);
        assert(replace_char(a, from, to) + replace_char(b, from, to) =~= replace_char(
            a,
            from,
            to,
        ));
    } else {
        let init = b.drop_last();
        assert((a + b).drop_last() =~= a + init);
        assert((a + b).last() == b.last());
        lemma_replace_concat(a, init, from, to);
        if b.last() == from {
            assert((replace_char(a, from, to) + replace_char(init, from, to)) + to =~= replace_char(
                a,
                from,
                to,
            ) + (replace_char(init, from, to) + to));
        } else {
            assert((replace_char(a, from, to) + replace_char(init, from, to)).push(b.last())
                =~= replace_char(a, from, to) + replace_char(init, from, to).push(b.last()));
        }
    }
}

/// A text without the character to replace is left as it is.
pub proof fn lemma_replace_absent(s: Seq<char>, from: char, to: Seq<char>)
    requires
        !s.contains(from),
    ensures
        replace_char(s, from, to) == s,
    decreases s.len(),
{
    if s.len() > 0 {
        assert(s.last() == s[s.len() - 1]);
        assert forall|i: int| 0 <= i < s.drop_last().len() implies s.drop_last()[i] != from by {
            assert(s.drop_last()[i] == s[i]);
        }
        lemma_replace_absent(s.drop_last(), from, to);
        assert(s.drop_last().push(s.last()) =~= s);
    }
}

/// What the replacement writes holds the replaced character only where the
/// replacing text holds it.
pub proof fn lemma_replace_removes(s: Seq<char>, from: char, to: Seq<char>)
    requires
        !to.contains(from),
    ensures
        !replace_char(s, from, to).contains(from),
    decreases s.len(),
{
    if s.len() > 0 {
        lemma_replace_removes(s.drop_last(), from, to);
        let init = replace_char(s.drop_last(), from, to);
        let out = replace_char(s, from, to);
        assert forall|i: int| 0 <= i < out.len() implies out[i] != from by {
            if i < init.len() {
                assert(out[i] == init[i]);
            } else if s.last() == from {
                assert(out[i] == to[i - init.len()]);
            }
        }
    }
}

/// Copies a list of strings.
pub fn copy_texts(texts: &Vec<String>) -> (r: Vec<String>)
    ensures
        views(r@) == views(texts@),
{
    let mut out: Vec<String> = Vec::new();
    let mut i: usize = 0;
    while i < texts.len()
        invariant
            i <= texts.len(),
            out.len() == i,
            forall|j: int| 0 <= j < i ==> (#[trigger] out[j])@ == texts[j]@,
        decreases texts.len() - i,
    {
        out.push(texts[i].clone());
        i = i + 1;
    }
    proof {
        assert(views(out@) =~= views(texts@));
    }
    out
}

/// Joins the strings of `parts`, putting `sep` between neighbours.
pub fn join_texts(parts: &Vec<String>, sep: &str) -> (r: String)
    ensures
        r@ == join(views(parts@), sep@),
{
    let mut out = String::new();
    let mut i: usize = 0;
    while i < parts.len()
        invariant
            i <= parts.len(),
            out@ == join(views(parts@).take(i as int), sep@),
        decreases parts.len() - i,
    {
        proof {
            let all = views(parts@);
            assert(all.take(i + 1) =~= all.take(i as int).push(parts[i as int]@));
            lemma_join_push(all.take(i as int), sep@, parts[i as int]@);
        }
        if i > 0 {
            out.append(sep);
        }
        out.append(parts[i].as_str());
        i = i + 1;
    }
    proof {
        assert(views(parts@).take(parts.len() as int) =~= views(parts@));
    }
    out
}

/// Copies `s`, writing `to` in place of every `from`.
pub fn replace_each(s: &str, from: char, to: &str) -> (r: String)
    ensures
        r@ == replace_char(s@, from, to@),
{
    let mut out = String::new();
    for c in it: s.chars()
        invariant
            it.seq() == s@,
            out@ == replace_char(s@.take(it.index() as int), from, to@),
    {
        proof {
            let n = it.index() as int;
            assert(s@.take(n + 1).drop_last() =~= s@.take(n));
        }
        if c == from {
            out.append(to);
        } else {
            out.push(c);
        }
    }
    proof {
        assert(s@.take(s@.len() as int) =~= s@);
    }
    out
}

/// Tells whether `c` is white space.
pub fn is_blank_char(c: char) -> (b: bool)
    ensures
        b == is_blank(c),
{
    let u: u32 = c as u32;
    (0x09 <= u && u <= 0x0D) || u == 0x20 || u == 0x85 || u == 0xA0 || u == 0x1680 || (0x2000
        <= u && u <= 0x200A) || u == 0x2028 || u == 0x2029 || u == 0x202F || u == 0x205F || u
        == 0x3000
}

fn chars_of(s: &str) -> (v: Vec<char>)
    ensures
        v@ == s@,
{
    let mut out: Vec<char> = Vec::new();
    for c in it: s.chars()
        invariant
            it.seq() == s@,
            out@ == s@.take(it.index() as int),
    {
        proof {
            let n = it.index() as int;
            assert(s@.take(n + 1) =~= s@.take(n).push(s@[n]));
        }
        out.push(c);
    }
    proof {
        assert(s@.take(s@.len() as int) =~= s@);
    }
    out
}

fn blanks_end(v: &Vec<char>, from: usize) -> (to: usize)
    requires
        from <= v.len(),
    ensures
        from <= to <= v.len(),
        v@.skip(to as int) == skip_blanks(v@.skip(from as int)),
{
    let mut j: usize = from;
    while j < v.len() && is_blank_char(v[j])
        invariant
            from <= j <= v.len(),
            skip_blanks(v@.skip(j as int)) == skip_blanks(v@.skip(from as int)),
        decreases v.len() - j,
    {
        proof {
            assert(v@.skip(j as int)[0] == v[j as int]);
            assert(v@.skip(j as int).skip(1) =~= v@.skip(j + 1));
        }
        j = j + 1;
    }
    proof {
        if j < v.len() {
            assert(v@.skip(j as int)[0] == v[j as int]);
        }
    }
    j
}

fn word_end(v: &Vec<char>, from: usize) -> (to: usize)
    requires
        from <= v.len(),
    ensures
        from <= to <= v.len(),
        v@.skip(to as int) == skip_word(v@.skip(from as int)),
{
    let mut j: usize = from;
    while j < v.len() && !is_blank_char(v[j])
        invariant
            from <= j <= v.len(),
            skip_word(v@.skip(j as int)) == skip_word(v@.skip(from as int)),
        decreases v.len() - j,
    {
        proof {
            assert(v@.skip(j as int)[0] == v[j as int]);
            assert(v@.skip(j as int).skip(1) =~= v@.skip(j + 1));
        }
        j = j + 1;
    }
    proof {
        if j < v.len() {
            assert(v@.skip(j as int)[0] == v[j as int]);
        }
    }
    j
}

/// Copies `s` without its first `n` words and the white space around them.
pub fn drop_leading_words(s: &str, n: usize) -> (r: String)
    ensures
        r@ == drop_words(s@, n as nat),
{
    let v = chars_of(s);
    let mut at: usize = 0;
    let mut k: usize = 0;
    proof {
        assert(v@.skip(0) =~= v@);
    }
    while k < n
        invariant
            k <= n,
            at <= v.len(),
            v@.skip(at as int) == drop_words(v@, k as nat),
        decreases n - k,
    {
        let word = blanks_end(&v, at);
        let gap = word_end(&v, word);
        at = blanks_end(&v, gap);
        k = k + 1;
    }
    let mut out = String::new();
    let ghost start = at;
    proof {
        assert(v@.subrange(start as int, at as int) =~= Seq::<char>::empty());
    }
    while at < v.len()
        invariant
            start <= at <= v.len(),
            out@ == v@.subrange(start as int, at as int),
        decreases v.len() - at,
    {
        proof {
            assert(v@.subrange(start as int, at + 1) =~= v@.subrange(start as int, at as int).push(
                v[at as int],
            ));
        }
        out.push(v[at]);
        at = at + 1;
    }
    proof {
        assert(v@.subrange(start as int, v.len() as int) =~= v@.skip(start as int));
    }
    out
}

fn to_upper_char(c: char) -> (r: char)
    ensures
        r == upper_char(c),
{
    if 'a' <= c && c <= 'z' {
        let b: u8 = c as u8;
        (b - 32) as char
    } else {
        c
    }
}

/// Copies `s` with every ASCII letter in upper case.
pub fn to_upper(s: &str) -> (r: String)
    ensures
        r@ == upper(s@),
{
    let mut out = String::new();
    for c in it: s.chars()
        invariant
            it.seq() == s@,
            out@ == upper(s@.take(it.index() as int)),
    {
        proof {
            let n = it.index() as int;
            assert(upper(s@.take(n + 1)) =~= upper(s@.take(n)).push(upper_char(s@[n])));
        }
        out.push(to_upper_char(c));
    }
    proof {
        assert(s@.take(s@.len() as int) =~= s@);
    }
    out
}

} // verus!
