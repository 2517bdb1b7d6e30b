//! Text, numerals and slugs.

use crate::slug::{hyphenated, key_slug, slug, slugify, words};
use crate::text::{
    chars_of, decimal, decimal_text, has_char, hex, hex_text, is_blank, is_white_space,
    sorts_before, text_eq, text_lt, text_of, trim, trimmed,
};
use vstd::prelude::*;

verus! {

/// The characters that Unicode calls white space.
pub open spec fn white(c: char) -> bool {
    ||| 9 <= c as u32 <= 13
    ||| c as u32 == 32
    ||| c as u32 == 133
    ||| c as u32 == 160
    ||| c as u32 == 5760
    ||| 8192 <= c as u32 <= 8202
    ||| 8232 <= c as u32 <= 8233
    ||| c as u32 == 8239
    ||| c as u32 == 8287
    ||| c as u32 == 12288
}

/// Whether `t` is what lies between `i` and `j` in `s`, where only white space is
/// outside and none at the edges inside.
pub open spec fn core_of(s: Seq<char>, t: Seq<char>, i: int, j: int) -> bool {
    &&& 0 <= i <= j <= s.len()
    &&& t == s.subrange(i, j)
    &&& forall|k: int| 0 <= k < i ==> white(#[trigger] s[k])
    &&& forall|k: int| j <= k < s.len() ==> white(#[trigger] s[k])
    &&& i < j ==> !white(s[i]) && !white(s[j - 1])
}

pub proof fn lemma_core(s: Seq<char>) -> (r: (int, int))
    ensures
        core_of(s, trimmed(s), r.0, r.1),
    decreases s.len(),
{
    if s.len() > 0 {
        assert(is_white_space(s.first()) == white(s.first()));
        assert(is_white_space(s.last()) == white(s.last()));
    }
    if s.len() > 0 && white(s.first()) {
        let rest = s.drop_first();
        assert(trimmed(s) == trimmed(rest));
        let (i, j) = lemma_core(rest);
        assert(rest.subrange(i, j) =~= s.subrange(i + 1, j + 1));
        assert forall|k: int| 0 <= k < i + 1 implies white(#[trigger] s[k]) by {
            if k > 0 {
                assert(rest[k - 1] == s[k]);
            }
        }
        assert forall|k: int| j + 1 <= k < s.len() implies white(#[trigger] s[k]) by {
            assert(rest[k - 1] == s[k]);
        }
        if i < j {
            assert(rest[i] == s[i + 1] && rest[j - 1] == s[j]);
        }
        (i + 1, j + 1)
    } else if s.len() > 0 && white(s.last()) {
        let rest = s.drop_last();
        let (i, j) = lemma_core(rest);
        assert(rest.subrange(i, j) =~= s.subrange(i, j));
        assert forall|k: int| 0 <= k < i implies white(#[trigger] s[k]) by {
            assert(rest[k] == s[k]);
        }
        assert forall|k: int| j <= k < s.len() implies white(#[trigger] s[k]) by {
            if k < rest.len() {
                assert(rest[k] == s[k]);
            }
        }
        if i < j {
            assert(rest[i] == s[i] && rest[j - 1] == s[j - 1]);
        }
        (i, j)
    } else {
        assert(s.subrange(0, s.len() as int) =~= s);
        (0, s.len() as int)
    }
}

/// Trimming takes away the white space at both ends, all of it and nothing else.
pub proof fn law_trim(s: &str, out: String)
    requires
        call_ensures(trim, (s,), out),
    ensures
        exists|i: int, j: int| #[trigger] core_of(s@, out@, i, j),
{
    let (i, j) = lemma_core(s@);
    assert(core_of(s@, out@, i, j));
}

/// A text is blank if it holds white space only.
pub proof fn law_blank(s: &str, yes: bool)
    requires
        call_ensures(is_blank, (s,), yes),
    ensures
        yes <==> forall|k: int| 0 <= k < s@.len() ==> white(#[trigger] s@[k]),
{
    let (i, j) = lemma_core(s@);
    if !yes {
        assert(!white(s@[i]));
    }
}

/// Texts are the same if they have the same characters.
pub proof fn law_text_eq(a: &str, b: &str, same: bool)
    requires
        call_ensures(text_eq, (a, b), same),
    ensures
        same <==> a@.len() == b@.len() && forall|i: int|
            0 <= i < a@.len() ==> #[trigger] a@[i] == b@[i],
{
    if a@.len() == b@.len() && forall|i: int| 0 <= i < a@.len() ==> #[trigger] a@[i] == b@[i] {
        assert(a@ =~= b@);
    }
}

/// A text and its characters.
pub proof fn law_characters(
    s: &str,
    all: Vec<char>,
    chars: Vec<char>,
    from: usize,
    to: usize,
    part: String,
    c: char,
    yes: bool,
)
    requires
        call_ensures(chars_of, (s,), all),
        call_ensures(text_of, (&chars, from, to), part),
        from <= to <= chars@.len(),
        call_ensures(has_char, (&chars, c), yes),
    ensures
        all@ == s@,
        part@.len() == to - from,
        forall|i: int| 0 <= i < to - from ==> #[trigger] part@[i] == chars@[from + i],
        yes <==> exists|i: int| 0 <= i < chars@.len() && #[trigger] chars@[i] == c,
{
}

/// The number that a decimal numeral stands for.
pub open spec fn number_of(s: Seq<char>) -> nat
    decreases s.len(),
{
    if s.len() == 0 {
        0
    } else {
        (10 * number_of(s.drop_last()) + (s.last() as u32 - '0' as u32)) as nat
    }
}

pub proof fn lemma_decimal(n: nat)
    ensures
        number_of(decimal(n)) == n,
        decimal(n).len() > 0,
        decimal(n)[0] == '0' ==> n == 0 && decimal(n).len() == 1,
        forall|i: int| 0 <= i < decimal(n).len() ==> '0' <= #[trigger] decimal(n)[i] <= '9',
    decreases n,
{
    reveal_with_fuel(number_of, 2);
    if n >= 10 {
        lemma_decimal(n / 10);
        let s = decimal(n);
        assert(s.drop_last() =~= decimal(n / 10));
        assert(s[0] == decimal(n / 10)[0]);
    } else {
        assert(decimal(n).drop_last().len() == 0);
    }
}

/// A number is written with the digits 0 to 9, without leading zeros, and the
/// numeral stands for it.
pub proof fn law_decimal(n: u128, out: String)
    requires
        call_ensures(decimal_text, (n,), out),
    ensures
        number_of(out@) == n,
        out@.len() > 0,
        out@[0] == '0' ==> out@.len() == 1,
        forall|i: int| 0 <= i < out@.len() ==> '0' <= #[trigger] out@[i] <= '9',
{
    lemma_decimal(n as nat);
}

/// The value of a hexadecimal digit.
pub open spec fn hex_value(c: char) -> int {
    if '0' <= c <= '9' {
        c as u32 - '0' as u32
    } else {
        10 + (c as u32 - 'a' as u32)
    }
}

/// The number that a hexadecimal numeral stands for.
pub open spec fn hex_number_of(s: Seq<char>) -> int
    decreases s.len(),
{
    if s.len() == 0 {
        0
    } else {
        16 * hex_number_of(s.drop_last()) + hex_value(s.last())
    }
}

/// The numbers with at most `width` hexadecimal digits.
pub open spec fn fits(n: int, width: nat) -> bool
    decreases width,
{
    if width == 0 {
        n == 0
    } else {
        fits(n / 16, (width - 1) as nat)
    }
}

pub proof fn lemma_hex(n: nat, width: nat)
    ensures
        hex(n, width).len() == width,
        fits(n as int, width) ==> hex_number_of(hex(n, width)) == n,
        forall|i: int|
            0 <= i < width ==> '0' <= #[trigger] hex(n, width)[i] <= '9' || 'a' <= hex(
                n,
                width,
            )[i] <= 'f',
    decreases width,
{
    if width > 0 {
        lemma_hex(n / 16, (width - 1) as nat);
        let s = hex(n, width);
        assert(s.drop_last() =~= hex(n / 16, (width - 1) as nat));
        assert(hex_value(s.last()) == n % 16);
    }
}

/// A number that fits is written with `width` lower-case hexadecimal digits, and
/// the numeral stands for it.
pub proof fn law_hex(n: u64, width: usize, out: String)
    requires
        call_ensures(hex_text, (n, width), out),
    ensures
        out@.len() == width,
        fits(n as int, width as nat) ==> hex_number_of(out@) == n,
        forall|i: int|
            0 <= i < width ==> '0' <= #[trigger] out@[i] <= '9' || 'a' <= out@[i] <= 'f',
{
    lemma_hex(n as nat, width as nat);
}

/// Whether `a` and `b` agree up to `k`, and `a` ends there or goes on with the
/// lesser character.
pub open spec fn parts_at(a: Seq<char>, b: Seq<char>, k: int) -> bool {
    &&& 0 <= k <= a.len()
    &&& k < b.len()
    &&& forall|i: int| 0 <= i < k ==> #[trigger] a[i] == b[i]
    &&& k == a.len() || a[k] < b[k]
}

proof fn lemma_less(a: Seq<char>, b: Seq<char>) -> (k: int)
    requires
        text_lt(a, b),
    ensures
        parts_at(a, b, k),
    decreases a.len(),
{
    if a.len() == 0 || a[0] != b[0] {
        0
    } else {
        let k = lemma_less(a.drop_first(), b.drop_first());
        assert forall|i: int| 0 <= i < k + 1 implies #[trigger] a[i] == b[i] by {
            if i > 0 {
                assert(a.drop_first()[i - 1] == b.drop_first()[i - 1]);
            }
        }
        k + 1
    }
}

proof fn lemma_less_at(a: Seq<char>, b: Seq<char>, k: int)
    requires
        parts_at(a, b, k),
    ensures
        text_lt(a, b),
    decreases a.len(),
{
    if k > 0 {
        assert(a[0] == b[0]);
        let (x, y) = (a.drop_first(), b.drop_first());
        assert forall|i: int| 0 <= i < k - 1 implies #[trigger] x[i] == y[i] by {
            assert(a[i + 1] == b[i + 1]);
        }
        lemma_less_at(x, y, k - 1);
    }
}

/// Texts sort as in a dictionary, character by character.
pub proof fn law_text_order(a: &str, b: &str, yes: bool)
    requires
        call_ensures(sorts_before, (a, b), yes),
    ensures
        yes <==> exists|k: int| #[trigger] parts_at(a@, b@, k),
{
    if yes {
        let k = lemma_less(a@, b@);
        assert(parts_at(a@, b@, k));
    } else if exists|k: int| #[trigger] parts_at(a@, b@, k) {
        let k = choose|k: int| #[trigger] parts_at(a@, b@, k);
        lemma_less_at(a@, b@, k);
    }
}

/// The characters that a slug keeps.
pub open spec fn kept(c: char) -> bool {
    '0' <= c <= '9' || 'A' <= c <= 'Z' || 'a' <= c <= 'z'
}

/// How a slug keeps them.
pub open spec fn small(c: char) -> char {
    if 'A' <= c <= 'Z' {
        (c as u32 + 32) as char
    } else {
        c
    }
}

/// Whether something of a text is kept.
pub open spec fn has_kept(s: Seq<char>) -> bool {
    exists|i: int| 0 <= i < s.len() && kept(#[trigger] s[i])
}

/// All words in a row.
spec fn flattened(ws: Seq<Seq<char>>) -> Seq<char>
    decreases ws.len(),
{
    if ws.len() == 0 {
        Seq::empty()
    } else {
        flattened(ws.drop_last()) + ws.last()
    }
}

proof fn lemma_flattened_words(s: Seq<char>)
    ensures
        flattened(words(s)) == s.filter(|c: char| kept(c)).map_values(|c: char| small(c)),
        words(s).len() == 0 <==> !has_kept(s),
        s.len() > 0 && kept(s.last()) ==> words(s).len() > 0,
        forall|i: int, j: int|
            #![trigger words(s)[i][j]]
            0 <= i < words(s).len() && 0 <= j < words(s)[i].len() ==> words(s)[i][j] != '-',
    decreases s.len(),
{
    let keep = |c: char| kept(c);
    let low = |c: char| small(c);
    reveal(Seq::filter);
    if s.len() > 0 {
        let init = s.drop_last();
        let c = s.last();
        lemma_flattened_words(init);
        let before = words(init);
        let now = words(s);
        assert(has_kept(s) <==> has_kept(init) || kept(c)) by {
            if has_kept(init) {
                let i = choose|i: int| 0 <= i < init.len() && kept(#[trigger] init[i]);
                assert(kept(s[i]));
            }
            if kept(c) {
                assert(kept(s[s.len() - 1]));
            }
            if has_kept(s) && !kept(c) {
                let i = choose|i: int| 0 <= i < s.len() && kept(#[trigger] s[i]);
                assert(kept(init[i]));
            }
        }
        if kept(c) {
            assert(s.filter(keep) =~= init.filter(keep).push(c));
            assert(s.filter(keep).map_values(low) =~= init.filter(keep).map_values(low).push(
                small(c),
            ));
            if s.len() >= 2 && kept(s[s.len() - 2]) {
                assert(init.last() == s[s.len() - 2]);
                assert(now.drop_last() =~= before.drop_last());
                assert(now.last() =~= before.last().push(small(c)));
                assert(flattened(now) =~= flattened(before).push(small(c)));
            } else {
                assert(now.drop_last() =~= before);
                assert(flattened(now) =~= flattened(before).push(small(c)));
            }
        } else {
            assert(s.filter(keep) =~= init.filter(keep));
        }
    } else {
        assert(s.filter(keep).map_values(low) =~= Seq::<char>::empty());
    }
}

proof fn lemma_unhyphenated(ws: Seq<Seq<char>>)
    requires
        forall|i: int, j: int|
            #![trigger ws[i][j]]
            0 <= i < ws.len() && 0 <= j < ws[i].len() ==> ws[i][j] != '-',
    ensures
        hyphenated(ws).filter(|c: char| c != '-') == flattened(ws),
    decreases ws.len(),
{
    let letters = |c: char| c != '-';
    if ws.len() == 0 {
        reveal(Seq::filter);
        assert(hyphenated(ws).filter(letters) =~= flattened(ws));
    } else {
        let init = ws.drop_last();
        let last = ws.last();
        assert forall|i: int, j: int|
            #![trigger init[i][j]]
            0 <= i < init.len() && 0 <= j < init[i].len() implies init[i][j] != '-' by {
            assert(ws[i][j] != '-');
        }
        lemma_unhyphenated(init);
        assert forall|j: int| 0 <= j < last.len() implies letters(#[trigger] last[j]) by {
            assert(ws[ws.len() - 1][j] != '-');
        }
        lemma_filter_all(last, letters);
        if ws.len() == 1 {
            assert(flattened(init) =~= Seq::<char>::empty());
            assert(flattened(ws) =~= last);
        } else {
            let dash = seq!['-'];
            Seq::filter_distributes_over_add(hyphenated(init) + dash, last, letters);
            Seq::filter_distributes_over_add(hyphenated(init), dash, letters);
            reveal_with_fuel(Seq::filter, 2);
            assert(dash.drop_last() =~= Seq::<char>::empty());
            assert(!letters(dash.last()));
            assert(dash.filter(letters) =~= Seq::<char>::empty());
            assert(hyphenated(ws).filter(letters) =~= flattened(ws));
        }
    }
}

proof fn lemma_filter_all(s: Seq<char>, p: spec_fn(char) -> bool)
    requires
        forall|j: int| 0 <= j < s.len() ==> p(#[trigger] s[j]),
    ensures
        s.filter(p) == s,
    decreases s.len(),
{
    reveal(Seq::filter);
    if s.len() > 0 {
        let init = s.drop_last();
        assert forall|j: int| 0 <= j < init.len() implies p(#[trigger] init[j]) by {
            assert(init[j] == s[j]);
        }
        lemma_filter_all(init, p);
        assert(p(s[s.len() - 1]));
        assert(s.filter(p) =~= s);
    } else {
        assert(s.filter(p) =~= s);
    }
}

/// A slug keeps every ASCII letter and digit, in order and in lower case, and adds
/// hyphens only.
pub proof fn law_slug_keeps(s: &str, out: String)
    requires
        call_ensures(slugify, (s,), out),
        has_kept(s@),
    ensures
        out@.filter(|c: char| c != '-') == s@.filter(
            |c: char| '0' <= c <= '9' || 'A' <= c <= 'Z' || 'a' <= c <= 'z',
        ).map_values(
            |c: char|
                if 'A' <= c <= 'Z' {
                    (c as u32 + 32) as char
                } else {
                    c
                },
        ),
{
    lemma_flattened_words(s@);
    lemma_unhyphenated(words(s@));
    assert((|c: char| '0' <= c <= '9' || 'A' <= c <= 'Z' || 'a' <= c <= 'z') =~= (|c: char|
        kept(c)));
    assert((|c: char|
        if 'A' <= c <= 'Z' {
            (c as u32 + 32) as char
        } else {
            c
        }) =~= (|c: char| small(c)));
}

/// A text of which nothing can be kept has the slug `unknown`.
pub proof fn law_slug_unknown(s: &str, out: String)
    requires
        call_ensures(slugify, (s,), out),
        !has_kept(s@),
    ensures
        out@ == seq!['u', 'n', 'k', 'n', 'o', 'w', 'n'],
{
    lemma_flattened_words(s@);
    reveal_strlit("unknown");
}

proof fn lemma_words_split(a: Seq<char>, x: char, b: Seq<char>)
    requires
        !kept(x),
    ensures
        words(a.push(x) + b) == words(a) + words(b),
    decreases b.len(),
{
    let s = a.push(x) + b;
    if b.len() == 0 {
        assert(s =~= a.push(x));
        assert(s.drop_last() =~= a);
        assert(words(s) =~= words(a) + words(b));
    } else {
        let init = b.drop_last();
        lemma_words_split(a, x, init);
        lemma_flattened_words(init);
        assert(s.drop_last() =~= a.push(x) + init);
        assert(s.last() == b.last());
        let n = s.len() - 2;
        if b.len() >= 2 {
            assert(s[n] == b[b.len() - 2]);
            assert(init.last() == b[b.len() - 2]);
        } else {
            assert(s[n] == x);
        }
        assert(words(s) =~= words(a) + words(b));
    }
}

proof fn lemma_hyphenated_add(v: Seq<Seq<char>>, w: Seq<Seq<char>>)
    requires
        v.len() > 0,
        w.len() > 0,
    ensures
        hyphenated(v + w) == hyphenated(v) + seq!['-'] + hyphenated(w),
    decreases w.len(),
{
    assert((v + w).drop_last() =~= v + w.drop_last());
    assert((v + w).last() == w.last());
    if w.len() == 1 {
        assert(v + w.drop_last() =~= v);
    } else {
        lemma_hyphenated_add(v, w.drop_last());
        assert(hyphenated(v + w) =~= hyphenated(v) + seq!['-'] + hyphenated(w));
    }
}

/// Anything that is not kept separates: what stands before it and behind it is
/// slugified on its own, with one hyphen between if both are there.
pub proof fn law_slug_splits(
    a: &str,
    x: char,
    b: &str,
    whole: &str,
    out_a: String,
    out_b: String,
    out: String,
)
    requires
        !('0' <= x <= '9' || 'A' <= x <= 'Z' || 'a' <= x <= 'z'),
        whole@ == a@ + seq![x] + b@,
        call_ensures(slugify, (a,), out_a),
        call_ensures(slugify, (b,), out_b),
        call_ensures(slugify, (whole,), out),
    ensures
        has_kept(a@) && has_kept(b@) ==> out@ == out_a@ + seq!['-'] + out_b@,
        has_kept(a@) && !has_kept(b@) ==> out@ == out_a@,
        !has_kept(a@) ==> out@ == out_b@,
{
    assert(whole@ =~= a@.push(x) + b@);
    lemma_words_split(a@, x, b@);
    lemma_flattened_words(a@);
    lemma_flattened_words(b@);
    if has_kept(a@) && has_kept(b@) {
        lemma_hyphenated_add(words(a@), words(b@));
    } else if has_kept(a@) {
        assert(words(whole@) =~= words(a@));
    } else {
        assert(words(whole@) =~= words(b@));
    }
}

proof fn lemma_one_word(s: Seq<char>)
    requires
        s.len() > 0,
        forall|i: int| 0 <= i < s.len() ==> kept(#[trigger] s[i]),
    ensures
        words(s) == seq![s.map_values(|c: char| small(c))],
    decreases s.len(),
{
    let low = |c: char| small(c);
    let init = s.drop_last();
    assert(kept(s[s.len() - 1]));
    if s.len() == 1 {
        assert(words(init) =~= Seq::<Seq<char>>::empty());
        assert(s.map_values(low) =~= seq![small(s.last())]);
    } else {
        lemma_one_word(init);
        assert(kept(s[s.len() - 2]));
        assert(s.map_values(low) =~= init.map_values(low).push(small(s.last())));
    }
    assert(words(s) =~= seq![s.map_values(low)]);
}

/// A text all of which is kept is its own slug, in lower case.
pub proof fn law_slug_of_word(s: &str, out: String)
    requires
        call_ensures(slugify, (s,), out),
        s@.len() > 0,
        forall|i: int|
            0 <= i < s@.len() ==> '0' <= #[trigger] s@[i] <= '9' || 'A' <= s@[i] <= 'Z' || 'a'
                <= s@[i] <= 'z',
    ensures
        out@.len() == s@.len(),
        forall|i: int|
            0 <= i < s@.len() ==> #[trigger] out@[i] == if 'A' <= s@[i] <= 'Z' {
                (s@[i] as u32 + 32) as char
            } else {
                s@[i]
            },
{
    lemma_one_word(s@);
}

/// A key goes by the slug of what follows `KEY_` or `BTN_` in its name, and by that
/// of the whole name if it has neither.
pub proof fn law_key_slug(name: &str, stem: &str, out: String, out_stem: String)
    requires
        call_ensures(key_slug, (name,), out),
        call_ensures(slugify, (stem,), out_stem),
        name@ == seq!['K', 'E', 'Y', '_'] + stem@ || name@ == seq!['B', 'T', 'N', '_'] + stem@ || (
        name@ == stem@ && name@.take(4) != seq!['K', 'E', 'Y', '_'] && name@.take(4) != seq![
            'B',
            'T',
            'N',
            '_',
        ]),
    ensures
        out@ == out_stem@,
{
    reveal_strlit("KEY_");
    reveal_strlit("BTN_");
    assert("KEY_"@ =~= seq!['K', 'E', 'Y', '_']);
    assert("BTN_"@ =~= seq!['B', 'T', 'N', '_']);
    if name@ != stem@ || name@.take(4) == "KEY_"@ || name@.take(4) == "BTN_"@ {
        assert(name@.take(4) =~= seq!['K', 'E', 'Y', '_'] || name@.take(4) =~= seq![
            'B',
            'T',
            'N',
            '_',
        ]);
        assert(name@.skip(4) =~= stem@);
    }
}

} // verus!
