//! Text as a sequence of characters: searching, cutting, trimming and escaping.

use vstd::prelude::*;
use vstd::string::*;
use vstd::utf8::*;
use crate::views::{each, each_push, seen};

verus! {

/// `String::push` appends one character at the end.
pub assume_specification[ String::push ](s: &mut String, c: char)
    ensures
        final(s)@ == old(s)@.push(c),
;

/// The characters of a text, in order.
pub fn characters(s: &str) -> (r: Vec<char>)
    ensures
        r@ == s@,
{
    let mut out: Vec<char> = Vec::new();
    for c in it: s.chars()
        invariant
            it.seq() == s@,
            out@ =~= s@.subrange(0, it.index() as int),
    {
        out.push(c);
    }
    out
}

/// Whether two texts hold the same characters.
pub fn same(a: &str, b: &str) -> (r: bool)
    ensures
        r == (a@ == b@),
{
    let x = characters(a);
    let y = characters(b);
    if x.len() != y.len() {
        return false;
    }
    let mut i: usize = 0;
    while i < x.len()
        invariant
            x@ == a@,
            y@ == b@,
            x.len() == y.len(),
            i <= x.len(),
            forall|k: int| 0 <= k < i ==> x@[k] == y@[k],
        decreases x.len() - i,
    {
        if x[i] != y[i] {
            return false;
        }
        i += 1;
    }
    assert(a@ =~= b@);
    true
}

/// Whether an optional text is present and equal to `b`.
pub fn equals(a: Option<&str>, b: &str) -> (r: bool)
    ensures
        r == (seen(a) == Some(b@)),
{
    match a {
        Some(a) => same(a, b),
        None => false,
    }
}

/// The text, or `fallback` where there is none.
pub open spec fn or_text(a: Option<Seq<char>>, fallback: Seq<char>) -> Seq<char> {
    match a {
        Some(a) => a,
        None => fallback,
    }
}

pub fn or_else<'a>(a: Option<&'a str>, fallback: &'a str) -> (r: &'a str)
    ensures
        r@ == or_text(seen(a), fallback@),
{
    match a {
        Some(a) => a,
        None => fallback,
    }
}

/// An owned copy of an optional text.
pub fn own(a: Option<&str>) -> (r: Option<String>)
    ensures
        seen(r) == seen(a),
{
    match a {
        Some(a) => Some(a.to_owned()),
        None => None,
    }
}

/// A borrowed form of an optional text.
pub fn lend(a: &Option<String>) -> (r: Option<&str>)
    ensures
        seen(r) == seen(*a),
{
    match a {
        Some(a) => Some(a.as_str()),
        None => None,
    }
}

/// `a` followed by `b`.
pub fn cat(a: &str, b: &str) -> (r: String)
    ensures
        r@ == a@ + b@,
{
    let mut r = a.to_owned();
    r.append(b);
    r
}

/// `a`, `b` and `c` in a row.
pub fn cat3(a: &str, b: &str, c: &str) -> (r: String)
    ensures
        r@ == a@ + b@ + c@,
{
    let mut r = cat(a, b);
    r.append(c);
    r
}

pub open spec fn starts_with(s: Seq<char>, p: Seq<char>) -> bool {
    p.len() <= s.len() && s.subrange(0, p.len() as int) == p
}

pub open spec fn ends_with(s: Seq<char>, p: Seq<char>) -> bool {
    p.len() <= s.len() && s.subrange(s.len() - p.len(), s.len() as int) == p
}

/// What follows `p` in a text that starts with `p`.
pub open spec fn strip_prefix(s: Seq<char>, p: Seq<char>) -> Option<Seq<char>> {
    if starts_with(s, p) {
        Some(s.subrange(p.len() as int, s.len() as int))
    } else {
        None
    }
}

/// What precedes `p` in a text that ends with `p`.
pub open spec fn strip_suffix(s: Seq<char>, p: Seq<char>) -> Option<Seq<char>> {
    if ends_with(s, p) {
        Some(s.subrange(0, s.len() - p.len()))
    } else {
        None
    }
}

/// The first place, at or after `i`, at which `p` occurs in `s`.
pub open spec fn find_from(s: Seq<char>, p: Seq<char>, i: int) -> Option<int>
    decreases s.len() + 1 - i,
{
    if i + p.len() > s.len() {
        None
    } else if s.subrange(i, i + p.len()) == p {
        Some(i)
    } else {
        find_from(s, p, i + 1)
    }
}

pub open spec fn contains(s: Seq<char>, p: Seq<char>) -> bool {
    find_from(s, p, 0) is Some
}

/// The texts before and after the first occurrence of `p`.
pub open spec fn split_once(s: Seq<char>, p: Seq<char>) -> Option<(Seq<char>, Seq<char>)> {
    match find_from(s, p, 0) {
        Some(i) => Some((s.subrange(0, i), s.subrange(i + p.len(), s.len() as int))),
        None => None,
    }
}

/// A place that is found lies inside the text and `p` stands there.
pub proof fn find_from_is_place(s: Seq<char>, p: Seq<char>, i: int)
    requires
        0 <= i,
    ensures
        find_from(s, p, i) matches Some(k) ==> i <= k && k + p.len() <= s.len() && s.subrange(
            k,
            k + p.len(),
        ) == p,
    decreases s.len() + 1 - i,
{
    if i + p.len() > s.len() {
    } else if s.subrange(i, i + p.len()) == p {
    } else {
        find_from_is_place(s, p, i + 1);
    }
}

/// Whether the characters of `p` stand in `s` from place `i` on.
fn stands_at(s: &Vec<char>, p: &Vec<char>, i: usize) -> (r: bool)
    requires
        i + p.len() <= s.len(),
    ensures
        r == (s@.subrange(i as int, i + p@.len()) == p@),
{
    let mut k: usize = 0;
    while k < p.len()
        invariant
            i + p.len() <= s.len(),
            k <= p.len(),
            forall|j: int| 0 <= j < k ==> s@[i + j] == p@[j],
        decreases p.len() - k,
    {
        if s[i + k] != p[k] {
            assert(s@.subrange(i as int, i + p@.len())[k as int] != p@[k as int]);
            return false;
        }
        k += 1;
    }
    assert(s@.subrange(i as int, i + p@.len()) =~= p@);
    true
}

pub fn begins(s: &str, p: &str) -> (r: bool)
    ensures
        r == starts_with(s@, p@),
{
    let x = characters(s);
    let y = characters(p);
    y.len() <= x.len() && stands_at(&x, &y, 0)
}

pub fn after_prefix<'a>(s: &'a str, p: &str) -> (r: Option<&'a str>)
    ensures
        seen(r) == strip_prefix(s@, p@),
{
    if begins(s, p) {
        let n: usize = characters(p).len();
        let m: usize = characters(s).len();
        Some(s.substring_char(n, m))
    } else {
        None
    }
}

pub fn before_suffix<'a>(s: &'a str, p: &str) -> (r: Option<&'a str>)
    ensures
        seen(r) == strip_suffix(s@, p@),
{
    let x = characters(s);
    let y = characters(p);
    if y.len() <= x.len() && stands_at(&x, &y, x.len() - y.len()) {
        Some(s.substring_char(0, x.len() - y.len()))
    } else {
        None
    }
}

pub fn find(s: &str, p: &str) -> (r: Option<usize>)
    ensures
        r matches Some(i) ==> find_from(s@, p@, 0) == Some(i as int) && i + p@.len() <= s@.len(),
        r is None ==> find_from(s@, p@, 0) is None,
{
    let x = characters(s);
    let y = characters(p);
    if y.len() > x.len() {
        return None;
    }
    let mut i: usize = 0;
    while i <= x.len() - y.len()
        invariant
            x@ == s@,
            y@ == p@,
            y.len() <= x.len(),
            i <= x.len() - y.len() + 1,
            find_from(s@, p@, 0) == find_from(s@, p@, i as int),
        decreases x.len() - y.len() + 1 - i,
    {
        if stands_at(&x, &y, i) {
            return Some(i);
        }
        if i == x.len() - y.len() {
            assert(find_from(s@, p@, i + 1) is None);
            return None;
        }
        i += 1;
    }
    None
}

pub fn holds(s: &str, p: &str) -> (r: bool)
    ensures
        r == contains(s@, p@),
{
    find(s, p).is_some()
}

pub fn cut<'a>(s: &'a str, p: &str) -> (r: Option<(&'a str, &'a str)>)
    ensures
        seen(r) == split_once(s@, p@),
{
    match find(s, p) {
        Some(i) => {
            let n: usize = characters(p).len();
            let m: usize = characters(s).len();
            Some((s.substring_char(0, i), s.substring_char(i + n, m)))
        },
        None => None,
    }
}

/// The characters that Unicode lists as white space.
pub open spec fn is_space(c: char) -> bool {
    let n = c as u32;
    9 <= n <= 13 || n == 0x20 || n == 0x85 || n == 0xa0 || n == 0x1680 || 0x2000 <= n <= 0x200a || n
        == 0x2028 || n == 0x2029 || n == 0x202f || n == 0x205f || n == 0x3000
}

fn space(c: char) -> (r: bool)
    ensures
        r == is_space(c),
{
    let n: u32 = c as u32;
    9 <= n && n <= 13 || n == 0x20 || n == 0x85 || n == 0xa0 || n == 0x1680 || 0x2000 <= n && n
        <= 0x200a || n == 0x2028 || n == 0x2029 || n == 0x202f || n == 0x205f || n == 0x3000
}

/// The first place, at or after `i`, that is no white space; the end where there is none.
pub open spec fn skip_space(s: Seq<char>, i: int) -> int
    decreases s.len() - i,
{
    if 0 <= i < s.len() && is_space(s[i]) {
        skip_space(s, i + 1)
    } else {
        i
    }
}

/// The end of the text up to `i` once white space at its end is left out.
pub open spec fn drop_space(s: Seq<char>, from: int, i: int) -> int
    decreases i - from,
{
    if from < i <= s.len() && is_space(s[i - 1]) {
        drop_space(s, from, i - 1)
    } else {
        i
    }
}

/// The text without white space at either end.
pub open spec fn trim(s: Seq<char>) -> Seq<char> {
    let a = skip_space(s, 0);
    s.subrange(a, drop_space(s, a, s.len() as int))
}

pub fn trimmed<'a>(s: &'a str) -> (r: &'a str)
    ensures
        r@ == trim(s@),
{
    let x = characters(s);
    let mut a: usize = 0;
    while a < x.len() && space(x[a])
        invariant
            x@ == s@,
            a <= x.len(),
            skip_space(s@, 0) == skip_space(s@, a as int),
        decreases x.len() - a,
    {
        a += 1;
    }
    let mut b: usize = x.len();
    while a < b && space(x[b - 1])
        invariant
            x@ == s@,
            a <= b <= x.len(),
            drop_space(s@, a as int, s@.len() as int) == drop_space(s@, a as int, b as int),
        decreases b,
    {
        b -= 1;
    }
    s.substring_char(a, b)
}

/// The first place, at or after `i`, that is not `c`.
pub open spec fn skip_char(s: Seq<char>, c: char, i: int) -> int
    decreases s.len() - i,
{
    if 0 <= i < s.len() && s[i] == c {
        skip_char(s, c, i + 1)
    } else {
        i
    }
}

/// The end of the text up to `i` once every `c` at its end is left out.
pub open spec fn drop_char(s: Seq<char>, c: char, from: int, i: int) -> int
    decreases i - from,
{
    if from < i <= s.len() && s[i - 1] == c {
        drop_char(s, c, from, i - 1)
    } else {
        i
    }
}

/// The text without any `c` at either end.
pub open spec fn trim_char(s: Seq<char>, c: char) -> Seq<char> {
    let a = skip_char(s, c, 0);
    s.subrange(a, drop_char(s, c, a, s.len() as int))
}

pub fn trimmed_of<'a>(s: &'a str, c: char) -> (r: &'a str)
    ensures
        r@ == trim_char(s@, c),
{
    let x = characters(s);
    let mut a: usize = 0;
    while a < x.len() && x[a] == c
        invariant
            x@ == s@,
            a <= x.len(),
            skip_char(s@, c, 0) == skip_char(s@, c, a as int),
        decreases x.len() - a,
    {
        a += 1;
    }
    let mut b: usize = x.len();
    while a < b && x[b - 1] == c
        invariant
            x@ == s@,
            a <= b <= x.len(),
            drop_char(s@, c, a as int, s@.len() as int) == drop_char(s@, c, a as int, b as int),
        decreases b,
    {
        b -= 1;
    }
    s.substring_char(a, b)
}

/// A text that neither starts nor ends with white space has none to trim.
pub proof fn nothing_to_trim(s: Seq<char>)
    requires
        s.len() > 0,
        !is_space(s[0]),
        !is_space(s[s.len() - 1]),
    ensures
        trim(s) == s,
{
    assert(trim(s) =~= s);
}

/// Quotes are trimmed off a text that holds none.
pub proof fn quotes_are_trimmed(s: Seq<char>, c: char)
    requires
        forall|i: int| 0 <= i < s.len() ==> #[trigger] s[i] != c,
    ensures
        trim_char(seq![c] + s + seq![c], c) == s,
{
    let q = seq![c] + s + seq![c];
    assert(q[0] == c);
    if s.len() > 0 {
        assert(q[1] == s[0]);
        assert(skip_char(q, c, 1) == 1);
        assert(q[q.len() - 2] == s[s.len() - 1]);
        assert(drop_char(q, c, 1, q.len() - 1) == q.len() - 1);
    } else {
        assert(q[1] == c);
        assert(skip_char(q, c, 2) == 2);
        assert(skip_char(q, c, 1) == 2);
    }
    assert(trim_char(q, c) =~= s);
}

/// The text without its leading occurrences of a nonempty `p`.
pub open spec fn trim_prefixes(s: Seq<char>, p: Seq<char>) -> Seq<char>
    decreases s.len(),
{
    if p.len() > 0 && starts_with(s, p) {
        trim_prefixes(s.subrange(p.len() as int, s.len() as int), p)
    } else {
        s
    }
}

pub fn without_prefixes<'a>(s: &'a str, p: &str) -> (r: &'a str)
    requires
        p@.len() > 0,
    ensures
        r@ == trim_prefixes(s@, p@),
{
    let mut rest = s;
    loop
        invariant
            p@.len() > 0,
            trim_prefixes(s@, p@) == trim_prefixes(rest@, p@),
        decreases rest@.len(),
    {
        match after_prefix(rest, p) {
            Some(shorter) => {
                rest = shorter;
            },
            None => {
                return rest;
            },
        }
    }
}

/// The pieces of `s` between occurrences of `c`, of which the first starts at `from`
/// and reaches at least to `i`.
pub open spec fn split_from(s: Seq<char>, c: char, from: int, i: int) -> Seq<Seq<char>>
    decreases s.len() - i,
{
    if i >= s.len() {
        seq![s.subrange(from, s.len() as int)]
    } else if s[i] == c {
        seq![s.subrange(from, i)] + split_from(s, c, i + 1, i + 1)
    } else {
        split_from(s, c, from, i + 1)
    }
}

/// The pieces of a text between occurrences of a character.
pub open spec fn split(s: Seq<char>, c: char) -> Seq<Seq<char>> {
    split_from(s, c, 0, 0)
}

pub fn pieces<'a>(s: &'a str, c: char) -> (r: Vec<&'a str>)
    ensures
        each(r@) == split(s@, c),
{
    let x = characters(s);
    let mut out: Vec<&'a str> = Vec::new();
    let mut from: usize = 0;
    let mut i: usize = 0;
    proof {
        assert(each(out@) + split_from(s@, c, 0, 0) =~= split(s@, c));
    }
    while i < x.len()
        invariant
            x@ == s@,
            from <= i <= x.len(),
            each(out@) + split_from(s@, c, from as int, i as int) == split(s@, c),
        decreases x.len() - i,
    {
        if x[i] == c {
            let piece = s.substring_char(from, i);
            proof {
                each_push(out@, piece);
                assert(each(out@) + (seq![piece@] + split_from(s@, c, i + 1, i + 1)) =~= each(
                    out@,
                ).push(piece@) + split_from(s@, c, i + 1, i + 1));
            }
            out.push(piece);
            from = i + 1;
        }
        i += 1;
    }
    let piece = s.substring_char(from, x.len());
    proof {
        each_push(out@, piece);
        assert(each(out@) + seq![piece@] =~= each(out@).push(piece@));
    }
    out.push(piece);
    out
}

/// The words of `s`, of which the first starts at `from` and reaches at least to `i`.
pub open spec fn words_from(s: Seq<char>, from: int, i: int) -> Seq<Seq<char>>
    decreases s.len() - i,
{
    if i >= s.len() {
        word(s, from, s.len() as int)
    } else if is_space(s[i]) {
        word(s, from, i) + words_from(s, i + 1, i + 1)
    } else {
        words_from(s, from, i + 1)
    }
}

/// The word from one place to another, unless it is empty.
pub open spec fn word(s: Seq<char>, from: int, to: int) -> Seq<Seq<char>> {
    if from < to {
        seq![s.subrange(from, to)]
    } else {
        Seq::empty()
    }
}

/// The words of a text, which white space sets apart.
pub open spec fn words(s: Seq<char>) -> Seq<Seq<char>> {
    words_from(s, 0, 0)
}

pub fn words_of(s: &str) -> (r: Vec<String>)
    ensures
        each(r@) == words(s@),
{
    let x = characters(s);
    let mut out: Vec<String> = Vec::new();
    let mut from: usize = 0;
    let mut i: usize = 0;
    proof {
        assert(each(out@) + words_from(s@, 0, 0) =~= words(s@));
    }
    while i < x.len()
        invariant
            x@ == s@,
            from <= i <= x.len(),
            each(out@) + words_from(s@, from as int, i as int) == words(s@),
        decreases x.len() - i,
    {
        if space(x[i]) {
            let ghost rest = words_from(s@, i + 1, i + 1);
            if from < i {
                let piece = s.substring_char(from, i).to_owned();
                proof {
                    each_push(out@, piece);
                    assert(each(out@) + (seq![piece@] + rest) =~= each(out@).push(piece@) + rest);
                }
                out.push(piece);
            } else {
                assert(Seq::<Seq<char>>::empty() + rest =~= rest);
            }
            from = i + 1;
        }
        i += 1;
    }
    if from < x.len() {
        let piece = s.substring_char(from, x.len()).to_owned();
        proof {
            each_push(out@, piece);
            assert(each(out@) + seq![piece@] =~= each(out@).push(piece@));
        }
        out.push(piece);
    } else {
        assert(each(out@) + Seq::<Seq<char>>::empty() =~= each(out@));
    }
    out
}

/// The first `i` texts, each but the first preceded by `glue`.
pub open spec fn join_upto(parts: Seq<Seq<char>>, glue: Seq<char>, i: int) -> Seq<char>
    decreases i,
{
    if i <= 0 {
        Seq::empty()
    } else if i == 1 {
        parts[0]
    } else {
        join_upto(parts, glue, i - 1) + glue + parts[i - 1]
    }
}

/// The texts in a row, with `glue` between neighbours.
pub open spec fn join(parts: Seq<Seq<char>>, glue: Seq<char>) -> Seq<char> {
    join_upto(parts, glue, parts.len() as int)
}

pub fn joined(parts: &Vec<String>, glue: &str) -> (r: String)
    ensures
        r@ == join(each(parts@), glue@),
{
    let mut out = String::new();
    let mut i: usize = 0;
    while i < parts.len()
        invariant
            i <= parts.len(),
            out@ == join_upto(each(parts@), glue@, i as int),
        decreases parts.len() - i,
    {
        if i == 0 {
            out = parts[i].clone();
        } else {
            out.append(glue);
            out.append(&parts[i]);
        }
        i += 1;
    }
    out
}

/// The lower-case form of an ASCII capital; any other character as it is.
pub open spec fn lower(c: char) -> char {
    if 0x41 <= c as u32 <= 0x5a {
        ((c as u32 + 0x20) as u8) as char
    } else {
        c
    }
}

/// The text with its ASCII capitals in lower case.
pub open spec fn lowered(s: Seq<char>) -> Seq<char> {
    Seq::new(s.len(), |i: int| lower(s[i]))
}

pub fn lowercase(s: &str) -> (r: String)
    ensures
        r@ == lowered(s@),
{
    let x = characters(s);
    let mut out = String::new();
    let mut i: usize = 0;
    while i < x.len()
        invariant
            x@ == s@,
            i <= x.len(),
            out@ == lowered(s@).subrange(0, i as int),
        decreases x.len() - i,
    {
        let n: u32 = x[i] as u32;
        let c: char = if 0x41 <= n && n <= 0x5a {
            ((n + 0x20) as u8) as char
        } else {
            x[i]
        };
        proof {
            assert(lowered(s@).subrange(0, i as int).push(c) =~= lowered(s@).subrange(0, i + 1));
        }
        out.push(c);
        i += 1;
    }
    assert(lowered(s@).subrange(0, i as int) =~= lowered(s@));
    out
}

/// How a character is written in XML text and attribute values.
pub open spec fn xml_char(c: char) -> Seq<char> {
    if c == '&' {
        "&amp;"@
    } else if c == '<' {
        "&lt;"@
    } else if c == '>' {
        "&gt;"@
    } else if c == '"' {
        "&quot;"@
    } else if c == '\'' {
        "&apos;"@
    } else {
        seq![c]
    }
}

/// The first `i` characters of a text, written in XML.
pub open spec fn xml_upto(s: Seq<char>, i: int) -> Seq<char>
    decreases i,
{
    if i <= 0 {
        Seq::empty()
    } else {
        xml_upto(s, i - 1) + xml_char(s[i - 1])
    }
}

/// A text written in XML: each of `& < > " '` by its entity.
pub open spec fn xml(s: Seq<char>) -> Seq<char> {
    xml_upto(s, s.len() as int)
}

/// A text written in XML holds no character that delimits tags or attribute values.
pub proof fn xml_holds_no_delimiters(s: Seq<char>)
    ensures
        forall|i: int|
            0 <= i < xml(s).len() ==> {
                let c = #[trigger] xml(s)[i];
                c != '<' && c != '>' && c != '"' && c != '\''
            },
{
    xml_upto_holds_no_delimiters(s, s.len() as int);
}

proof fn xml_upto_holds_no_delimiters(s: Seq<char>, n: int)
    requires
        n <= s.len(),
    ensures
        forall|i: int|
            0 <= i < xml_upto(s, n).len() ==> {
                let c = #[trigger] xml_upto(s, n)[i];
                c != '<' && c != '>' && c != '"' && c != '\''
            },
    decreases n,
{
    if n > 0 {
        xml_upto_holds_no_delimiters(s, n - 1);
        reveal_strlit("&amp;");
        reveal_strlit("&lt;");
        reveal_strlit("&gt;");
        reveal_strlit("&quot;");
        reveal_strlit("&apos;");
        let before = xml_upto(s, n - 1);
        assert forall|i: int| 0 <= i < xml_upto(s, n).len() implies {
            let c = #[trigger] xml_upto(s, n)[i];
            c != '<' && c != '>' && c != '"' && c != '\''
        } by {
            if i < before.len() {
                assert(xml_upto(s, n)[i] == before[i]);
            } else {
                assert(xml_upto(s, n)[i] == xml_char(s[n - 1])[i - before.len()]);
            }
        }
    }
}

/// Writes a text so that it can stand in XML text and in quoted attribute values.
pub fn escape_xml(value: &str) -> (r: String)
    ensures
        r@ == xml(value@),
{
    let x = characters(value);
    let mut out = String::new();
    let mut i: usize = 0;
    while i < x.len()
        invariant
            x@ == value@,
            i <= x.len(),
            out@ == xml_upto(value@, i as int),
        decreases x.len() - i,
    {
        let c: char = x[i];
        if c == '&' {
            out.append("&amp;");
        } else if c == '<' {
            out.append("&lt;");
        } else if c == '>' {
            out.append("&gt;");
        } else if c == '"' {
            out.append("&quot;");
        } else if c == '\'' {
            out.append("&apos;");
        } else {
            proof {
                assert(out@.push(c) =~= out@ + seq![c]);
            }
            out.push(c);
        }
        i += 1;
    }
    out
}

/// `std::str::from_utf8` accepts exactly the byte sequences that are valid UTF-8
/// and gives the text that they encode.
#[verifier::external_body]
fn from_utf8(bytes: &[u8]) -> (r: Option<String>)
    ensures
        r is Some <==> valid_utf8(bytes@),
        r matches Some(s) ==> s@ == decode_utf8(bytes@),
{
    std::str::from_utf8(bytes).ok().map(str::to_string)
}

/// The text that bytes encode in UTF-8, where they do.
pub open spec fn utf8_text(bytes: Seq<u8>) -> Option<Seq<char>> {
    if valid_utf8(bytes) {
        Some(decode_utf8(bytes))
    } else {
        None
    }
}

pub fn text_of(bytes: &[u8]) -> (r: Option<String>)
    ensures
        seen(r) == utf8_text(bytes@),
{
    from_utf8(bytes)
}

/// Bytes read as UTF-8, with replacement characters where they are none.
pub uninterp spec fn lossy_text(bytes: Seq<u8>) -> Seq<char>;

/// `String::from_utf8_lossy`: where the bytes are valid UTF-8, the text that they encode.
#[verifier::external_body]
pub(crate) fn read_lossy(bytes: &[u8]) -> (r: String)
    ensures
        r@ == lossy_text(bytes@),
        valid_utf8(bytes@) ==> r@ == decode_utf8(bytes@),
{
    String::from_utf8_lossy(bytes).into_owned()
}

/// The last place, at or before `i`, at which `p` occurs in `s`.
pub open spec fn find_back(s: Seq<char>, p: Seq<char>, i: int) -> Option<int>
    decreases i + 1,
{
    if i < 0 {
        None
    } else if i + p.len() <= s.len() && s.subrange(i, i + p.len()) == p {
        Some(i)
    } else {
        find_back(s, p, i - 1)
    }
}

pub fn find_last(s: &str, p: &str) -> (r: Option<usize>)
    ensures
        match r {
            Some(i) => find_back(s@, p@, s@.len() as int) == Some(i as int) && i + p@.len()
                <= s@.len(),
            None => find_back(s@, p@, s@.len() as int) is None,
        },
{
    let x = characters(s);
    let y = characters(p);
    let mut i: usize = x.len();
    loop
        invariant
            x@ == s@,
            y@ == p@,
            i <= x.len(),
            find_back(s@, p@, s@.len() as int) == find_back(s@, p@, i as int),
        decreases i,
    {
        if y.len() <= x.len() - i && stands_at(&x, &y, i) {
            return Some(i);
        }
        if i == 0 {
            assert(find_back(s@, p@, -1) is None);
            return None;
        }
        i -= 1;
    }
}

/// The bytes of a text in UTF-8.
pub fn bytes_of(s: &str) -> (r: Vec<u8>)
    ensures
        r@ == encode_utf8(s@),
{
    let bytes = s.as_bytes();
    copy_bytes(bytes)
}

/// A copy of bytes.
pub fn copy_bytes(bytes: &[u8]) -> (r: Vec<u8>)
    ensures
        r@ == bytes@,
{
    let mut out: Vec<u8> = Vec::new();
    let mut i: usize = 0;
    while i < bytes.len()
        invariant
            i <= bytes.len(),
            out@ =~= bytes@.subrange(0, i as int),
        decreases bytes.len() - i,
    {
        out.push(bytes[i]);
        i += 1;
    }
    out
}

/// Whether two byte sequences are equal.
pub fn same_bytes(a: &[u8], b: &[u8]) -> (r: bool)
    ensures
        r == (a@ == b@),
{
    if a.len() != b.len() {
        return false;
    }
    let mut i: usize = 0;
    while i < a.len()
        invariant
            a.len() == b.len(),
            i <= a.len(),
            forall|k: int| 0 <= k < i ==> a@[k] == b@[k],
        decreases a.len() - i,
    {
        if a[i] != b[i] {
            return false;
        }
        i += 1;
    }
    assert(a@ =~= b@);
    true
}

} // verus!
