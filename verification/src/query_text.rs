//! What the query engine reads from SQL text: the tables a statement names,
//! and the key its results are cached under.

use vstd::prelude::*;
use std::hash::{Hash, Hasher};
use crate::peer_addr::{hex_group, hex_text};
use crate::text::{chars_of, concat_str};

verus! {

/// `str::to_lowercase`: the Unicode lower-case form of a text.
pub uninterp spec fn lowercase(s: Seq<char>) -> Seq<char>;

/// `str::to_lowercase`: the contract names the lower-case form; the
/// Unicode case mapping is not stated.
#[verifier::external_body]
fn to_lower(s: &str) -> (res: String)
    ensures
        res@ == lowercase(s@),
{
    s.to_lowercase()
}

/// `char::is_alphanumeric`: whether a character is alphabetic or numeric
/// in Unicode.
pub uninterp spec fn alphanumeric(c: char) -> bool;

/// `char::is_alphanumeric`: the contract names the Unicode property.
#[verifier::external_body]
fn is_alnum(c: char) -> (res: bool)
    ensures
        res == alphanumeric(c),
{
    c.is_alphanumeric()
}

/// `std::hash::DefaultHasher::new()` fed the text: the 64-bit hash of a
/// string with the standard library's default hasher and its fixed keys.
pub uninterp spec fn default_hash(s: Seq<char>) -> u64;

/// Hashes a string with `DefaultHasher::new()`, as `str::hash` feeds it.
#[verifier::external_body]
pub(crate) fn hash_text(s: &str) -> (res: u64)
    ensures
        res == default_hash(s@),
{
    let mut hasher = std::collections::hash_map::DefaultHasher::new();
    s.hash(&mut hasher);
    hasher.finish()
}

/// Unicode `White_Space`, as `char::is_whitespace` tests it.
pub open spec fn white(c: char) -> bool {
    ||| '\t' <= c <= '\r'
    ||| c == ' '
    ||| c == '\u{85}'
    ||| c == '\u{a0}'
    ||| c == '\u{1680}'
    ||| '\u{2000}' <= c <= '\u{200a}'
    ||| c == '\u{2028}'
    ||| c == '\u{2029}'
    ||| c == '\u{202f}'
    ||| c == '\u{205f}'
    ||| c == '\u{3000}'
}

/// `char::is_whitespace`.
pub fn is_white(c: char) -> (res: bool)
    ensures
        res == white(c),
{
    ('\t' <= c && c <= '\r') || c == ' ' || c == '\u{85}' || c == '\u{a0}' || c == '\u{1680}'
        || ('\u{2000}' <= c && c <= '\u{200a}') || c == '\u{2028}' || c == '\u{2029}' || c == '\u{202f}'
        || c == '\u{205f}' || c == '\u{3000}'
}

/// The key query results are cached under: `query:` and the default hash
/// of the statement in lower-case hexadecimal.
pub fn generate_cache_key(sql: &str) -> (res: String)
    ensures
        res@ == "query:"@ + hex_group(default_hash(sql@) as nat),
{
    let h = hash_text(sql);
    let hex = hex_text(h);
    concat_str("query:", hex.as_str())
}

/// Position of the first occurrence of `p` in `s`, if any.
pub open spec fn first_at(s: Seq<char>, p: Seq<char>) -> Option<int> {
    if exists|i: int| 0 <= i && i + p.len() <= s.len() && #[trigger] s.subrange(i, i + p.len()) == p {
        Some(choose|i: int| 0 <= i && i + p.len() <= s.len() && #[trigger] s.subrange(i, i + p.len()) == p
            && forall|j: int| 0 <= j < i ==> #[trigger] s.subrange(j, j + p.len()) != p)
    } else {
        None
    }
}

/// `s` without its leading white space.
pub open spec fn skip_white(s: Seq<char>) -> Seq<char>
    decreases s.len(),
{
    if s.len() > 0 && white(s[0]) { skip_white(s.drop_first()) } else { s }
}

/// The leading run of `s` that holds no white space.
pub open spec fn take_word(s: Seq<char>) -> Seq<char>
    decreases s.len(),
{
    if s.len() > 0 && !white(s[0]) { seq![s[0]] + take_word(s.drop_first()) } else { Seq::empty() }
}

/// Whether a character may stay at the ends of a table name.
pub open spec fn name_char(c: char) -> bool {
    alphanumeric(c) || c == '_'
}

/// `s` without the leading characters that may not start a name.
pub open spec fn trim_front(s: Seq<char>) -> Seq<char>
    decreases s.len(),
{
    if s.len() > 0 && !name_char(s[0]) { trim_front(s.drop_first()) } else { s }
}

/// `s` without the trailing characters that may not end a name.
pub open spec fn trim_back(s: Seq<char>) -> Seq<char>
    decreases s.len(),
{
    if s.len() > 0 && !name_char(s.last()) { trim_back(s.drop_last()) } else { s }
}

/// The table name after the first occurrence of `p` in lower-case `s`: the
/// next word, trimmed of characters that are not alphanumeric or `_`.
pub open spec fn name_after(s: Seq<char>, p: Seq<char>) -> Option<Seq<char>> {
    match first_at(s, p) {
        Some(i) => Some(trim_back(trim_front(take_word(skip_white(s.subrange(i + p.len(), s.len() as int)))))),
        None => None,
    }
}

/// `names` with `found` added: when it is a name not yet there.
pub open spec fn add_found(names: Seq<Seq<char>>, found: Option<Seq<char>>) -> Seq<Seq<char>> {
    match found {
        Some(n) => if n.len() > 0 && !names.contains(n) { names.push(n) } else { names },
        None => names,
    }
}

/// The names found, in order, empty ones and repeats left out.
pub open spec fn collect_names(found: Seq<Option<Seq<char>>>) -> Seq<Seq<char>>
    decreases found.len(),
{
    if found.len() == 0 {
        Seq::empty()
    } else {
        add_found(collect_names(found.drop_last()), found.last())
    }
}

/// The tables a statement names: after the first `from `, `join `,
/// `update ` and `into ` of its lower-case form, in that order.
pub open spec fn table_names(sql: Seq<char>) -> Seq<Seq<char>> {
    let s = lowercase(sql);
    collect_names(seq![name_after(s, "from "@), name_after(s, "join "@), name_after(s, "update "@), name_after(s, "into "@)])
}

/// Position of the first occurrence of `p` in `s`.
fn find_first(s: &Vec<char>, p: &Vec<char>) -> (res: Option<usize>)
    ensures
        match first_at(s@, p@) {
            Some(i) => res == Some(i as usize),
            None => res is None,
        },
        res matches Some(i) ==> i + p@.len() <= s@.len() && first_at(s@, p@) == Some(i as int),
{
    if p.len() > s.len() {
        return None;
    }
    let last = s.len() - p.len();
    let mut i: usize = 0;
    while i <= last
        invariant
            last == s@.len() - p@.len(),
            p@.len() <= s@.len(),
            i <= last + 1,
            forall|j: int| 0 <= j < i ==> #[trigger] s@.subrange(j, j + p@.len()) != p@,
        decreases last + 1 - i,
    {
        let mut k: usize = 0;
        let mut same = true;
        while k < p.len()
            invariant
                k <= p@.len(),
                i + p@.len() <= s@.len(),
                s@.len() == s.len(),
                same <==> forall|m: int| 0 <= m < k ==> s@[i + m] == p@[m],
            decreases p@.len() - k,
        {
            if s[i + k] != p[k] {
                same = false;
            }
            k = k + 1;
        }
        if same {
            proof {
                assert(s@.subrange(i as int, i + p@.len()) =~= p@);
                let c = choose|c: int| 0 <= c && c + p@.len() <= s@.len() && #[trigger] s@.subrange(c, c + p@.len()) == p@
                    && forall|j: int| 0 <= j < c ==> #[trigger] s@.subrange(j, j + p@.len()) != p@;
                if c < i {
                    assert(s@.subrange(c, c + p@.len()) != p@);
                }
                if c > i {
                    assert(s@.subrange(i as int, i + p@.len()) != p@);
                }
            }
            return Some(i);
        }
        proof {
            let m = choose|m: int| 0 <= m < p@.len() && s@[i + m] != p@[m];
            assert(s@.subrange(i as int, i + p@.len())[m] != p@[m]);
        }
        if i == last {
            return None;
        }
        i = i + 1;
    }
    None
}

proof fn lemma_skip_white_step(s: Seq<char>, i: int)
    requires
        0 <= i < s.len(),
        white(s[i]),
    ensures
        skip_white(s.subrange(i, s.len() as int)) == skip_white(s.subrange(i + 1, s.len() as int)),
{
    assert(s.subrange(i, s.len() as int).drop_first() =~= s.subrange(i + 1, s.len() as int));
}

proof fn lemma_take_word_step(s: Seq<char>, i: int)
    requires
        0 <= i < s.len(),
        !white(s[i]),
    ensures
        take_word(s.subrange(i, s.len() as int)) == seq![s[i]] + take_word(s.subrange(i + 1, s.len() as int)),
{
    assert(s.subrange(i, s.len() as int).drop_first() =~= s.subrange(i + 1, s.len() as int));
}

/// The word after position `from` of `s`, trimmed to a table name.
fn name_from(s: &Vec<char>, from: usize) -> (res: Vec<char>)
    requires
        from <= s@.len(),
    ensures
        res@ == trim_back(trim_front(take_word(skip_white(s@.subrange(from as int, s@.len() as int))))),
{
    let n = s.len();
    let mut a: usize = from;
    while a < n && is_white(s[a])
        invariant
            from <= a <= n,
            n == s@.len(),
            skip_white(s@.subrange(from as int, n as int)) == skip_white(s@.subrange(a as int, n as int)),
        decreases n - a,
    {
        proof { lemma_skip_white_step(s@, a as int); }
        a = a + 1;
    }
    let ghost rest = s@.subrange(a as int, n as int);
    assert(skip_white(rest) == rest) by {
        if rest.len() > 0 {
            assert(rest[0] == s@[a as int]);
        }
    }
    let mut b: usize = a;
    while b < n && !is_white(s[b])
        invariant
            a <= b <= n,
            n == s@.len(),
            rest == s@.subrange(a as int, n as int),
            take_word(rest) == s@.subrange(a as int, b as int) + take_word(s@.subrange(b as int, n as int)),
        decreases n - b,
    {
        proof {
            lemma_take_word_step(s@, b as int);
            assert(s@.subrange(a as int, b + 1) =~= s@.subrange(a as int, b as int) + seq![s@[b as int]]);
        }
        b = b + 1;
    }
    assert(take_word(s@.subrange(b as int, n as int)) =~= Seq::<char>::empty()) by {
        if b < n {
            assert(s@.subrange(b as int, n as int)[0] == s@[b as int]);
        }
    }
    let ghost word = s@.subrange(a as int, b as int);
    assert(take_word(rest) =~= word);
    let mut lo: usize = a;
    while lo < b && !(is_alnum(s[lo]) || s[lo] == '_')
        invariant
            a <= lo <= b <= n,
            n == s@.len(),
            word == s@.subrange(a as int, b as int),
            trim_front(word) == trim_front(s@.subrange(lo as int, b as int)),
        decreases b - lo,
    {
        proof {
            assert(s@.subrange(lo as int, b as int).drop_first() =~= s@.subrange(lo + 1, b as int));
        }
        lo = lo + 1;
    }
    let ghost front = s@.subrange(lo as int, b as int);
    assert(trim_front(front) == front) by {
        if front.len() > 0 {
            assert(front[0] == s@[lo as int]);
        }
    }
    let mut hi: usize = b;
    while hi > lo && !(is_alnum(s[hi - 1]) || s[hi - 1] == '_')
        invariant
            lo <= hi <= b <= n,
            n == s@.len(),
            trim_back(front) == trim_back(s@.subrange(lo as int, hi as int)),
            front == s@.subrange(lo as int, b as int),
        decreases hi - lo,
    {
        proof {
            assert(s@.subrange(lo as int, hi as int).drop_last() =~= s@.subrange(lo as int, hi - 1));
        }
        hi = hi - 1;
    }
    let ghost name = s@.subrange(lo as int, hi as int);
    assert(trim_back(name) == name) by {
        if name.len() > 0 {
            assert(name.last() == s@[hi - 1]);
        }
    }
    let mut out: Vec<char> = Vec::new();
    let mut k: usize = lo;
    while k < hi
        invariant
            lo <= k <= hi <= n,
            n == s@.len(),
            out@ == s@.subrange(lo as int, k as int),
        decreases hi - k,
    {
        out.push(s[k]);
        assert(out@ =~= s@.subrange(lo as int, k + 1));
        k = k + 1;
    }
    out
}

/// Whether two character vectors hold the same characters.
fn same_chars(a: &Vec<char>, b: &Vec<char>) -> (res: bool)
    ensures
        res == (a@ == b@),
{
    if a.len() != b.len() {
        return false;
    }
    let mut i: usize = 0;
    while i < a.len()
        invariant
            i <= a@.len(),
            a@.len() == b@.len(),
            forall|j: int| 0 <= j < i ==> a@[j] == b@[j],
        decreases a@.len() - i,
    {
        if a[i] != b[i] {
            return false;
        }
        i = i + 1;
    }
    assert(a@ =~= b@);
    true
}

/// The texts of strings.
pub open spec fn texts_of(v: Seq<String>) -> Seq<Seq<char>> {
    v.map_values(|s: String| s@)
}

/// Whether `text` is among the strings.
fn text_listed(names: &Vec<String>, text: &String) -> (res: bool)
    ensures
        res == texts_of(names@).contains(text@),
{
    let mut k: usize = 0;
    while k < names.len()
        invariant
            k <= names@.len(),
            forall|j: int| 0 <= j < k ==> names@[j]@ != text@,
        decreases names@.len() - k,
    {
        if crate::text::same_str(names[k].as_str(), text.as_str()) {
            assert(texts_of(names@)[k as int] == text@);
            return true;
        }
        k = k + 1;
    }
    assert(!texts_of(names@).contains(text@)) by {
        if texts_of(names@).contains(text@) {
            let j = choose|j: int| 0 <= j < texts_of(names@).len() && texts_of(names@)[j] == text@;
            assert(names@[j]@ == text@);
        }
    }
    false
}

/// Adds the name after the first `pattern` of `s`, if any, unless it is
/// empty or already listed.
fn add_name_after(names: &mut Vec<String>, s: &Vec<char>, pattern: &str)
    ensures
        texts_of(final(names)@) == add_found(texts_of(old(names)@), name_after(s@, pattern@)),
{
    let p = chars_of(pattern);
    let slen = s.len();
    match find_first(s, &p) {
        None => {
            assert(first_at(s@, pattern@) is None);
        },
        Some(i) => {
            assert(i + p@.len() <= slen);
            let name = name_from(s, i + p.len());
            assert(first_at(s@, pattern@) == Some(i as int));
            assert(name_after(s@, pattern@) == Some(name@));
            let text = string_of(&name);
            if name.len() == 0 || text_listed(names, &text) {
                return;
            }
            let ghost before = names@;
            names.push(text);
            assert(texts_of(names@) =~= texts_of(before).push(name@));
        },
    }
}

/// The tables a statement names, after the first `from `, `join `,
/// `update ` and `into ` of its lower-case form: each time the next word,
/// trimmed of characters that are neither alphanumeric nor `_`; empty
/// names and repeats left out.
#[verifier::rlimit(40)]
pub fn extract_table_names(sql: &str) -> (res: Vec<String>)
    ensures
        texts_of(res@) == table_names(sql@),
{
    let lower = to_lower(sql);
    let s = chars_of(lower.as_str());
    let mut names: Vec<String> = Vec::new();
    assert(texts_of(names@) =~= Seq::<Seq<char>>::empty());
    add_name_after(&mut names, &s, "from ");
    add_name_after(&mut names, &s, "join ");
    add_name_after(&mut names, &s, "update ");
    add_name_after(&mut names, &s, "into ");
    proof {
        let l = lowercase(sql@);
        let f = seq![name_after(l, "from "@), name_after(l, "join "@), name_after(l, "update "@), name_after(l, "into "@)];
        assert(f.drop_last() =~= seq![name_after(l, "from "@), name_after(l, "join "@), name_after(l, "update "@)]);
        assert(f.drop_last().drop_last() =~= seq![name_after(l, "from "@), name_after(l, "join "@)]);
        assert(f.drop_last().drop_last().drop_last() =~= seq![name_after(l, "from "@)]);
        assert(f.drop_last().drop_last().drop_last().drop_last() =~= Seq::<Option<Seq<char>>>::empty());
        reveal_with_fuel(collect_names, 5);
    }
    names
}

/// The table a count statement counts: the word after its first `from `
/// (in lower case), trimmed to a name; none without `from ` or without a
/// word after it.
pub open spec fn count_table(sql: Seq<char>) -> Option<Seq<char>> {
    let s = lowercase(sql);
    match first_at(s, "from "@) {
        Some(i) => {
            let rest = skip_white(s.subrange(i + 5, s.len() as int));
            if rest.len() == 0 { None } else { Some(trim_back(trim_front(take_word(rest)))) }
        },
        None => None,
    }
}

/// The table a count statement counts, as `count_table` describes it.
pub fn count_table_name(sql: &str) -> (res: Option<String>)
    ensures
        match count_table(sql@) {
            Some(t) => res matches Some(r) && r@ == t,
            None => res is None,
        },
{
    let lower = to_lower(sql);
    let s = chars_of(lower.as_str());
    let p = chars_of("from ");
    proof {
        reveal_strlit("from ");
    }
    match find_first(&s, &p) {
        None => None,
        Some(i) => {
            let n = s.len();
            let from = i + 5;
            let mut a: usize = from;
            while a < n && is_white(s[a])
                invariant
                    from <= a <= n,
                    n == s@.len(),
                    skip_white(s@.subrange(from as int, n as int)) == skip_white(s@.subrange(a as int, n as int)),
                decreases n - a,
            {
                proof { lemma_skip_white_step(s@, a as int); }
                a = a + 1;
            }
            proof {
                let rest = s@.subrange(a as int, n as int);
                if rest.len() > 0 {
                    assert(rest[0] == s@[a as int]);
                }
                assert(skip_white(rest) == rest);
            }
            if a == n {
                None
            } else {
                let name = name_from(&s, from);
                Some(string_of(&name))
            }
        },
    }
}

/// `String::from_iter` over characters: the string of exactly those
/// characters, in order.
#[verifier::external_body]
fn string_of(v: &Vec<char>) -> (res: String)
    ensures
        res@ == v@,
{
    String::from_iter(v.iter())
}

} // verus!
