//! Slugs: lower-case, hyphen-separated names for devices and keys.

use crate::text::{chars_of, has_prefix, starts, text_of};
use vstd::prelude::*;

verus! {

/// ASCII letters and digits.
pub open spec fn is_alnum(c: char) -> bool {
    ||| '0' <= c <= '9'
    ||| 'A' <= c <= 'Z'
    ||| 'a' <= c <= 'z'
}

/// The lower-case form of an ASCII letter; other characters are kept.
pub open spec fn lower(c: char) -> char {
    if 'A' <= c <= 'Z' {
        (c as u32 + 32) as char
    } else {
        c
    }
}

/// The maximal runs of ASCII letters and digits in `s`, in lower case.
pub open spec fn words(s: Seq<char>) -> Seq<Seq<char>>
    decreases s.len(),
{
    if s.len() == 0 {
        Seq::empty()
    } else {
        let before = words(s.drop_last());
        let c = s.last();
        if !is_alnum(c) {
            before
        } else if s.len() >= 2 && is_alnum(s[s.len() - 2]) {
            before.drop_last().push(before.last().push(lower(c)))
        } else {
            before.push(seq![lower(c)])
        }
    }
}

/// `ws` with one hyphen between neighbours.
pub open spec fn hyphenated(ws: Seq<Seq<char>>) -> Seq<char>
    decreases ws.len(),
{
    if ws.len() == 0 {
        Seq::empty()
    } else if ws.len() == 1 {
        ws[0]
    } else {
        hyphenated(ws.drop_last()) + seq!['-'] + ws.last()
    }
}

/// The slug of `s`: its words joined by hyphens, or `unknown` if it has none.
pub open spec fn slug(s: Seq<char>) -> Seq<char> {
    if words(s).len() == 0 {
        "unknown"@
    } else {
        hyphenated(words(s))
    }
}

fn alnum(c: char) -> (yes: bool)
    ensures
        yes == is_alnum(c),
{
    ('0' <= c && c <= '9') || ('A' <= c && c <= 'Z') || ('a' <= c && c <= 'z')
}

fn lowered(c: char) -> (out: char)
    ensures
        out == lower(c),
{
    if 'A' <= c && c <= 'Z' {
        (c as u8 + 32) as char
    } else {
        c
    }
}

/// A word never ends without a character, and `words` of a text that ends in a
/// letter or digit is not empty.
proof fn lemma_words_last(s: Seq<char>)
    ensures
        s.len() > 0 && is_alnum(s.last()) ==> words(s).len() > 0,
        forall|i: int| 0 <= i < words(s).len() ==> (#[trigger] words(s)[i]).len() > 0,
    decreases s.len(),
{
    if s.len() > 0 {
        lemma_words_last(s.drop_last());
        if s.len() >= 2 {
            assert(s.drop_last().last() == s[s.len() - 2]);
        }
    }
}

/// Extending the last word extends the joined text.
proof fn lemma_hyphenated_extend(ws: Seq<Seq<char>>, c: char)
    requires
        ws.len() > 0,
    ensures
        hyphenated(ws.drop_last().push(ws.last().push(c))) == hyphenated(ws).push(c),
{
    let longer = ws.drop_last().push(ws.last().push(c));
    assert(longer.drop_last() =~= ws.drop_last());
    assert(hyphenated(longer) =~= hyphenated(ws).push(c));
}

/// A joined text that is not empty ends with its last word.
proof fn lemma_hyphenated_push(ws: Seq<Seq<char>>, c: char)
    ensures
        ws.len() > 0 ==> hyphenated(ws.push(seq![c])) == hyphenated(ws).push('-').push(c),
        ws.len() == 0 ==> hyphenated(ws.push(seq![c])) == seq![c],
{
    let longer = ws.push(seq![c]);
    assert(longer.drop_last() =~= ws);
    if ws.len() > 0 {
        assert(hyphenated(longer) =~= hyphenated(ws).push('-').push(c));
    }
}

proof fn lemma_hyphenated_nonempty(ws: Seq<Seq<char>>)
    requires
        forall|i: int| 0 <= i < ws.len() ==> (#[trigger] ws[i]).len() > 0,
    ensures
        (hyphenated(ws).len() == 0) == (ws.len() == 0),
{
}

/// Convert arbitrary text into a lowercase, hyphen-separated slug
/// safe to embed in MQTT topics and HA `unique_id`s.
pub fn slugify(text: &str) -> (out: String)
    ensures
        out@ == slug(text@),
{
    let chars = chars_of(text);
    let mut out: Vec<char> = Vec::new();
    // A hyphen is owed between two words, and is written with the second.
    let mut i: usize = 0;
    let mut in_word: bool = false;
    assert(chars@.take(0) =~= Seq::<char>::empty());
    while i < chars.len()
        invariant
            i <= chars@.len(),
            out@ == hyphenated(words(chars@.take(i as int))),
            in_word == (i > 0 && is_alnum(chars@[i - 1])),
        decreases chars@.len() - i,
    {
        let c = chars[i];
        let ghost seen = chars@.take(i as int);
        let ghost next = chars@.take(i + 1);
        proof {
            assert(next.drop_last() =~= seen);
            assert(next.last() == c);
            if i > 0 {
                assert(next[next.len() - 2] == chars@[i - 1]);
                assert(seen.last() == chars@[i - 1]);
            }
            lemma_words_last(seen);
            lemma_hyphenated_nonempty(words(seen));
        }
        if alnum(c) {
            if in_word {
                proof {
                    lemma_hyphenated_extend(words(seen), lower(c));
                }
            } else {
                proof {
                    lemma_hyphenated_push(words(seen), lower(c));
                }
                if out.len() > 0 {
                    out.push('-');
                }
            }
            out.push(lowered(c));
            in_word = true;
        } else {
            in_word = false;
        }
        i += 1;
    }
    proof {
        assert(chars@.take(chars@.len() as int) =~= text@);
        lemma_words_last(text@);
        lemma_hyphenated_nonempty(words(text@));
    }
    if out.len() == 0 {
        "unknown".to_owned()
    } else {
        let n = out.len();
        assert(out@.subrange(0, n as int) =~= out@);
        text_of(&out, 0, n)
    }
}

/// The text of a key name that becomes its slug: what follows `KEY_` or
/// `BTN_`, or the whole name.
pub open spec fn key_stem(name: Seq<char>) -> Seq<char> {
    if starts(name, "KEY_"@) {
        name.skip(4)
    } else if starts(name, "BTN_"@) {
        name.skip(4)
    } else {
        name
    }
}

/// Slugify an evdev key name like `KEY_VOLUMEUP` into `volumeup`.
/// A key without a symbolic name, whose name is its decimal code behind `KEY_`,
/// gets that number. A name without a known prefix is slugified whole.
pub fn key_slug(key_name: &str) -> (out: String)
    ensures
        out@ == slug(key_stem(key_name@)),
{
    let chars = chars_of(key_name);
    let key = chars_of("KEY_");
    let btn = chars_of("BTN_");
    proof {
        reveal_strlit("KEY_");
        reveal_strlit("BTN_");
    }
    if has_prefix(&chars, &key) || has_prefix(&chars, &btn) {
        let n = chars.len();
        let stem = text_of(&chars, 4, n);
        assert(stem@ =~= key_name@.skip(4));
        slugify(stem.as_str())
    } else {
        slugify(key_name)
    }
}

/// Lower-case ASCII letters and digits.
pub open spec fn is_slug_char(c: char) -> bool {
    ||| '0' <= c <= '9'
    ||| 'a' <= c <= 'z'
}

/// A slug's form: words of lower-case letters and digits with single hyphens
/// between them, so never empty and with no hyphen at either end.
pub open spec fn well_formed_slug(s: Seq<char>) -> bool {
    &&& s.len() > 0
    &&& is_slug_char(s.first())
    &&& is_slug_char(s.last())
    &&& forall|i: int| 0 <= i < s.len() ==> is_slug_char(#[trigger] s[i]) || s[i] == '-'
    &&& forall|i: int|
        0 <= i < s.len() - 1 && #[trigger] s[i] == '-' ==> s[i + 1] != '-'
}

spec fn clean_words(ws: Seq<Seq<char>>) -> bool {
    forall|i: int| 0 <= i < ws.len() ==> clean_word(#[trigger] ws[i])
}

spec fn clean_word(w: Seq<char>) -> bool {
    w.len() > 0 && forall|j: int| 0 <= j < w.len() ==> is_slug_char(#[trigger] w[j])
}

proof fn lemma_words_clean(s: Seq<char>)
    ensures
        clean_words(words(s)),
    decreases s.len(),
{
    if s.len() > 0 {
        lemma_words_clean(s.drop_last());
        lemma_words_last(s.drop_last());
        let before = words(s.drop_last());
        let c = s.last();
        if is_alnum(c) {
            assert(is_slug_char(lower(c)));
            if s.len() >= 2 && is_alnum(s[s.len() - 2]) {
                assert(s.drop_last().last() == s[s.len() - 2]);
                assert(clean_word(before.last()));
                assert(clean_word(before.last().push(lower(c))));
            } else {
                assert(clean_word(seq![lower(c)]));
            }
        }
    }
}

proof fn lemma_hyphenated_well_formed(ws: Seq<Seq<char>>)
    requires
        clean_words(ws),
        ws.len() > 0,
    ensures
        well_formed_slug(hyphenated(ws)),
    decreases ws.len(),
{
    assert(clean_word(ws.last()));
    if ws.len() > 1 {
        let init = ws.drop_last();
        assert forall|i: int| 0 <= i < init.len() implies clean_word(#[trigger] init[i]) by {
            assert(clean_word(ws[i]));
        }
        lemma_hyphenated_well_formed(init);
        let a = hyphenated(init);
        let w = ws.last();
        let s = hyphenated(ws);
        assert(s =~= a + seq!['-'] + w);
        assert(is_slug_char(w[0]));
        assert(s.last() == w.last());
        assert(s.first() == a.first());
        assert forall|i: int| 0 <= i < s.len() implies is_slug_char(#[trigger] s[i]) || s[i]
            == '-' by {
            if i < a.len() {
                assert(s[i] == a[i]);
            } else if i > a.len() {
                assert(s[i] == w[i - a.len() - 1]);
            }
        }
        assert forall|i: int| 0 <= i < s.len() - 1 && #[trigger] s[i] == '-' implies s[i + 1]
            != '-' by {
            if i < a.len() - 1 {
                assert(s[i] == a[i] && s[i + 1] == a[i + 1]);
            } else if i == a.len() - 1 {
                assert(s[i] == a.last());
            } else if i == a.len() {
                assert(s[i + 1] == w[0]);
            } else {
                assert(s[i] == w[i - a.len() - 1]);
            }
        }
    } else {
        assert(hyphenated(ws) == ws[0]);
        assert(ws.last() == ws[0]);
    }
}

/// Every slug consists of lower-case ASCII letters, digits and single inner
/// hyphens. In particular it holds none of the characters that separate topic
/// levels or act as wildcards in MQTT.
pub proof fn lemma_slug_well_formed(s: Seq<char>)
    ensures
        well_formed_slug(slug(s)),
        !slug(s).contains('/'),
        !slug(s).contains('+'),
        !slug(s).contains('#'),
{
    reveal_strlit("unknown");
    lemma_words_clean(s);
    if words(s).len() > 0 {
        lemma_hyphenated_well_formed(words(s));
    }
}

/// Appending a clean word to a text that does not end inside a word.
proof fn lemma_words_append(s: Seq<char>, w: Seq<char>)
    requires
        clean_word(w),
        s.len() == 0 || !is_alnum(s.last()),
    ensures
        words(s + w) == words(s).push(w),
    decreases w.len(),
{
    let t = s + w;
    let c = w.last();
    assert(is_slug_char(c));
    assert(lower(c) == c);
    assert(t.last() == c);
    assert(t.drop_last() =~= s + w.drop_last());
    if w.len() == 1 {
        assert(w.drop_last() =~= Seq::<char>::empty());
        assert(s + w.drop_last() =~= s);
        assert(w =~= seq![c]);
        if t.len() >= 2 {
            assert(t[t.len() - 2] == s.last());
        }
    } else {
        let v = w.drop_last();
        assert forall|j: int| 0 <= j < v.len() implies is_slug_char(#[trigger] v[j]) by {
            assert(is_slug_char(w[j]));
        }
        lemma_words_append(s, v);
        assert(is_slug_char(w[w.len() - 2]));
        assert(t[t.len() - 2] == w[w.len() - 2]);
        let before = words(s).push(v);
        assert(before.drop_last() =~= words(s));
        assert(v.push(c) =~= w);
    }
}

proof fn lemma_words_of_hyphenated(ws: Seq<Seq<char>>)
    requires
        clean_words(ws),
    ensures
        words(hyphenated(ws)) == ws,
    decreases ws.len(),
{
    if ws.len() == 0 {
        assert(ws =~= Seq::empty());
    } else {
        let init = ws.drop_last();
        let w = ws.last();
        assert(clean_word(w));
        assert forall|i: int| 0 <= i < init.len() implies clean_word(#[trigger] init[i]) by {
            assert(clean_word(ws[i]));
        }
        lemma_words_of_hyphenated(init);
        assert(init.push(w) =~= ws);
        if ws.len() == 1 {
            lemma_words_append(Seq::empty(), w);
            assert(Seq::<char>::empty() + w =~= w);
            assert(init =~= Seq::empty());
        } else {
            let head = hyphenated(init) + seq!['-'];
            assert(head.drop_last() =~= hyphenated(init));
            assert(head.last() == '-');
            lemma_words_append(head, w);
        }
    }
}

/// A slug is its own slug.
pub proof fn lemma_slug_idempotent(s: Seq<char>)
    ensures
        slug(slug(s)) == slug(s),
{
    lemma_words_clean(s);
    if words(s).len() > 0 {
        lemma_words_of_hyphenated(words(s));
    } else {
        reveal_strlit("unknown");
        let u = "unknown"@;
        assert(clean_word(u));
        lemma_words_append(Seq::empty(), u);
        assert(Seq::<char>::empty() + u =~= u);
        assert(words(u) =~= seq![u]);
    }
}

} // verus!
