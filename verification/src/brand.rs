//! The brand canonicalizer: maps a free-form brand string to its canonical
//! display name through a fixed table, and passes unknown brands through
//! unchanged (original casing and whitespace kept).
//!
//! Lookup normalizes the input first: surrounding whitespace is trimmed and
//! ASCII letters are lowercased. Whitespace here is the ASCII kind: space,
//! tab, line feed, carriage return, vertical tab and form feed.

use vstd::prelude::*;
use crate::strutil::{push_char, str_eq};

verus! {

pub open spec fn is_space(c: char) -> bool {
    c == ' ' || c == '\t' || c == '\n' || c == '\r' || c == '\u{0b}' || c == '\u{0c}'
}

/// ASCII lowercasing of one character.
pub open spec fn lower_char(c: char) -> char {
    if 'A' <= c && c <= 'Z' {
        ((c as u8) + 32) as char
    } else {
        c
    }
}

/// Length of the run of whitespace at the front of `s`.
pub open spec fn space_prefix_len(s: Seq<char>) -> int
    decreases s.len(),
{
    if s.len() > 0 && is_space(s[0]) {
        1 + space_prefix_len(s.skip(1))
    } else {
        0
    }
}

/// Length of the run of whitespace at the back of `s`.
pub open spec fn space_suffix_len(s: Seq<char>) -> int
    decreases s.len(),
{
    if s.len() > 0 && is_space(s[s.len() - 1]) {
        1 + space_suffix_len(s.drop_last())
    } else {
        0
    }
}

/// `s` without its surrounding whitespace.
pub open spec fn trim_spec(s: Seq<char>) -> Seq<char> {
    let p = space_prefix_len(s);
    if p == s.len() {
        Seq::empty()
    } else {
        s.subrange(p, s.len() - space_suffix_len(s))
    }
}

/// `s` with every ASCII letter lowercased.
pub open spec fn lower_spec(s: Seq<char>) -> Seq<char> {
    Seq::new(s.len(), |i: int| lower_char(s[i]))
}

/// The form under which a brand is looked up: trimmed, then lowercased.
pub open spec fn norm_spec(s: Seq<char>) -> Seq<char> {
    lower_spec(trim_spec(s))
}

/// The fixed table, from lookup key to canonical display name.
pub open spec fn brand_table(key: Seq<char>) -> Option<Seq<char>> {
    if key == "applegreen"@ {
        Some("Applegreen"@)
    } else if key == "asda express"@ {
        Some("ASDA Express"@)
    } else if key == "asda"@ {
        Some("ASDA"@)
    } else if key == "bp"@ {
        Some("BP"@)
    } else if key == "coop"@ {
        Some("Co Op"@)
    } else if key == "essar"@ {
        Some("Essar"@)
    } else if key == "esso"@ {
        Some("Esso"@)
    } else if key == "gulf"@ {
        Some("Gulf"@)
    } else if key == "harvest energy"@ {
        Some("Harvest Energy"@)
    } else if key == "jet"@ {
        Some("JET"@)
    } else if key == "morrisons"@ {
        Some("Morrisons"@)
    } else if key == "murco"@ {
        Some("Murco"@)
    } else if key == "sainsbury's"@ {
        Some("Sainsbury's"@)
    } else if key == "shell"@ {
        Some("Shell"@)
    } else if key == "tesco"@ {
        Some("Tesco"@)
    } else if key == "texaco"@ {
        Some("Texaco"@)
    } else {
        None
    }
}

/// What canonicalization returns: the table's name when the normalized input
/// is a known key, else the input itself, unchanged.
pub open spec fn canonical_brand(s: Seq<char>) -> Seq<char> {
    match brand_table(norm_spec(s)) {
        Some(v) => v,
        None => s,
    }
}

proof fn lemma_space_prefix_len_is(s: Seq<char>, k: int)
    requires
        0 <= k <= s.len(),
        forall|i: int| 0 <= i < k ==> is_space(#[trigger] s[i]),
        k < s.len() ==> !is_space(s[k]),
    ensures
        space_prefix_len(s) == k,
    decreases s.len(),
{
    if s.len() > 0 && is_space(s[0]) {
        assert forall|i: int| 0 <= i < k - 1 implies is_space(#[trigger] s.skip(1)[i]) by {
            assert(s.skip(1)[i] == s[i + 1]);
        }
        if k - 1 < s.skip(1).len() {
            assert(s.skip(1)[k - 1] == s[k]);
        }
        lemma_space_prefix_len_is(s.skip(1), k - 1);
    }
}

proof fn lemma_space_suffix_len_is(s: Seq<char>, k: int)
    requires
        0 <= k <= s.len(),
        forall|i: int| s.len() - k <= i < s.len() ==> is_space(#[trigger] s[i]),
        k < s.len() ==> !is_space(s[s.len() - k - 1]),
    ensures
        space_suffix_len(s) == k,
    decreases s.len(),
{
    if s.len() > 0 && is_space(s[s.len() - 1]) {
        assert forall|i: int| s.len() - k <= i < s.len() - 1 implies is_space(
            #[trigger] s.drop_last()[i],
        ) by {
            assert(s.drop_last()[i] == s[i]);
        }
        if k - 1 < s.drop_last().len() {
            assert(s.drop_last()[s.len() - k - 1] == s[s.len() - k - 1]);
        }
        lemma_space_suffix_len_is(s.drop_last(), k - 1);
    }
}

proof fn lemma_table_at_keys()
    ensures
        brand_table("applegreen"@) == Some("Applegreen"@),
        brand_table("asda express"@) == Some("ASDA Express"@),
        brand_table("asda"@) == Some("ASDA"@),
        brand_table("bp"@) == Some("BP"@),
        brand_table("essar"@) == Some("Essar"@),
        brand_table("esso"@) == Some("Esso"@),
        brand_table("gulf"@) == Some("Gulf"@),
        brand_table("harvest energy"@) == Some("Harvest Energy"@),
        brand_table("jet"@) == Some("JET"@),
        brand_table("morrisons"@) == Some("Morrisons"@),
        brand_table("murco"@) == Some("Murco"@),
        brand_table("sainsbury's"@) == Some("Sainsbury's"@),
        brand_table("shell"@) == Some("Shell"@),
        brand_table("tesco"@) == Some("Tesco"@),
        brand_table("texaco"@) == Some("Texaco"@),
        brand_table("co op"@) is None,
{
    reveal_strlit("applegreen");
    reveal_strlit("asda express");
    reveal_strlit("asda");
    reveal_strlit("bp");
    reveal_strlit("coop");
    reveal_strlit("essar");
    reveal_strlit("esso");
    reveal_strlit("gulf");
    reveal_strlit("harvest energy");
    reveal_strlit("jet");
    reveal_strlit("morrisons");
    reveal_strlit("murco");
    reveal_strlit("sainsbury's");
    reveal_strlit("shell");
    reveal_strlit("tesco");
    reveal_strlit("texaco");
    reveal_strlit("co op");
    assert("applegreen"@.len() == 10);
    assert("asda express"@.len() == 12);
    assert("asda"@.len() == 4);
    assert("bp"@.len() == 2);
    assert("coop"@.len() == 4);
    assert("essar"@.len() == 5);
    assert("esso"@.len() == 4);
    assert("gulf"@.len() == 4);
    assert("harvest energy"@.len() == 14);
    assert("jet"@.len() == 3);
    assert("morrisons"@.len() == 9);
    assert("murco"@.len() == 5);
    assert("sainsbury's"@.len() == 11);
    assert("shell"@.len() == 5);
    assert("tesco"@.len() == 5);
    assert("texaco"@.len() == 6);
    assert("co op"@.len() == 5);
    assert("applegreen"@[0] == 'a');
    assert("asda express"@[0] == 'a');
    assert("asda"@[0] == 'a');
    assert("bp"@[0] == 'b');
    assert("coop"@[0] == 'c');
    assert("essar"@[0] == 'e');
    assert("esso"@[0] == 'e');
    assert("gulf"@[0] == 'g');
    assert("harvest energy"@[0] == 'h');
    assert("jet"@[0] == 'j');
    assert("morrisons"@[0] == 'm');
    assert("murco"@[0] == 'm');
    assert("sainsbury's"@[0] == 's');
    assert("shell"@[0] == 's');
    assert("tesco"@[0] == 't');
    assert("texaco"@[0] == 't');
    assert("co op"@[0] == 'c');
}

proof fn lemma_norm_of_display_names_a()
    ensures
        norm_spec("Applegreen"@) == "applegreen"@,
        norm_spec("ASDA Express"@) == "asda express"@,
        norm_spec("ASDA"@) == "asda"@,
        norm_spec("BP"@) == "bp"@,
        norm_spec("Co Op"@) == "co op"@,
        norm_spec("Essar"@) == "essar"@,
        norm_spec("Esso"@) == "esso"@,
        norm_spec("Gulf"@) == "gulf"@,
{
    reveal_strlit("Applegreen");
    reveal_strlit("applegreen");
    assert(trim_spec("Applegreen"@) =~= "Applegreen"@);
    assert(lower_spec("Applegreen"@) =~= "applegreen"@);
    reveal_strlit("ASDA Express");
    reveal_strlit("asda express");
    assert(trim_spec("ASDA Express"@) =~= "ASDA Express"@);
    assert(lower_spec("ASDA Express"@) =~= "asda express"@);
    reveal_strlit("ASDA");
    reveal_strlit("asda");
    assert(trim_spec("ASDA"@) =~= "ASDA"@);
    assert(lower_spec("ASDA"@) =~= "asda"@);
    reveal_strlit("BP");
    reveal_strlit("bp");
    assert(trim_spec("BP"@) =~= "BP"@);
    assert(lower_spec("BP"@) =~= "bp"@);
    reveal_strlit("Co Op");
    reveal_strlit("co op");
    assert(trim_spec("Co Op"@) =~= "Co Op"@);
    assert(lower_spec("Co Op"@) =~= "co op"@);
    reveal_strlit("Essar");
    reveal_strlit("essar");
    assert(trim_spec("Essar"@) =~= "Essar"@);
    assert(lower_spec("Essar"@) =~= "essar"@);
    reveal_strlit("Esso");
    reveal_strlit("esso");
    assert(trim_spec("Esso"@) =~= "Esso"@);
    assert(lower_spec("Esso"@) =~= "esso"@);
    reveal_strlit("Gulf");
    reveal_strlit("gulf");
    assert(trim_spec("Gulf"@) =~= "Gulf"@);
    assert(lower_spec("Gulf"@) =~= "gulf"@);
}

proof fn lemma_norm_of_display_names_b()
    ensures
        norm_spec("Harvest Energy"@) == "harvest energy"@,
        norm_spec("JET"@) == "jet"@,
        norm_spec("Morrisons"@) == "morrisons"@,
        norm_spec("Murco"@) == "murco"@,
        norm_spec("Sainsbury's"@) == "sainsbury's"@,
        norm_spec("Shell"@) == "shell"@,
        norm_spec("Tesco"@) == "tesco"@,
        norm_spec("Texaco"@) == "texaco"@,
{
    reveal_strlit("Harvest Energy");
    reveal_strlit("harvest energy");
    assert(trim_spec("Harvest Energy"@) =~= "Harvest Energy"@);
    assert(lower_spec("Harvest Energy"@) =~= "harvest energy"@);
    reveal_strlit("JET");
    reveal_strlit("jet");
    assert(trim_spec("JET"@) =~= "JET"@);
    assert(lower_spec("JET"@) =~= "jet"@);
    reveal_strlit("Morrisons");
    reveal_strlit("morrisons");
    assert(trim_spec("Morrisons"@) =~= "Morrisons"@);
    assert(lower_spec("Morrisons"@) =~= "morrisons"@);
    reveal_strlit("Murco");
    reveal_strlit("murco");
    assert(trim_spec("Murco"@) =~= "Murco"@);
    assert(lower_spec("Murco"@) =~= "murco"@);
    reveal_strlit("Sainsbury's");
    reveal_strlit("sainsbury's");
    assert(trim_spec("Sainsbury's"@) =~= "Sainsbury's"@);
    assert(lower_spec("Sainsbury's"@) =~= "sainsbury's"@);
    reveal_strlit("Shell");
    reveal_strlit("shell");
    assert(trim_spec("Shell"@) =~= "Shell"@);
    assert(lower_spec("Shell"@) =~= "shell"@);
    reveal_strlit("Tesco");
    reveal_strlit("tesco");
    assert(trim_spec("Tesco"@) =~= "Tesco"@);
    assert(lower_spec("Tesco"@) =~= "tesco"@);
    reveal_strlit("Texaco");
    reveal_strlit("texaco");
    assert(trim_spec("Texaco"@) =~= "Texaco"@);
    assert(lower_spec("Texaco"@) =~= "texaco"@);
}

proof fn lemma_display_names_fixed()
    ensures
        canonical_brand("Applegreen"@) == "Applegreen"@,
        canonical_brand("ASDA Express"@) == "ASDA Express"@,
        canonical_brand("ASDA"@) == "ASDA"@,
        canonical_brand("BP"@) == "BP"@,
        canonical_brand("Co Op"@) == "Co Op"@,
        canonical_brand("Essar"@) == "Essar"@,
        canonical_brand("Esso"@) == "Esso"@,
        canonical_brand("Gulf"@) == "Gulf"@,
        canonical_brand("Harvest Energy"@) == "Harvest Energy"@,
        canonical_brand("JET"@) == "JET"@,
        canonical_brand("Morrisons"@) == "Morrisons"@,
        canonical_brand("Murco"@) == "Murco"@,
        canonical_brand("Sainsbury's"@) == "Sainsbury's"@,
        canonical_brand("Shell"@) == "Shell"@,
        canonical_brand("Tesco"@) == "Tesco"@,
        canonical_brand("Texaco"@) == "Texaco"@,
{
    lemma_table_at_keys();
    lemma_norm_of_display_names_a();
    lemma_norm_of_display_names_b();
}

/// Canonicalization is idempotent: a name the table already produced is
/// returned unchanged, and an unknown brand passes through unchanged, so a
/// second canonicalization can never alter the first one's result.
pub proof fn lemma_canonical_brand_idempotent(s: Seq<char>)
    ensures
        canonical_brand(canonical_brand(s)) == canonical_brand(s),
{
    if brand_table(norm_spec(s)) is Some {
        lemma_display_names_fixed();
    }
}

fn exec_is_space(c: char) -> (r: bool)
    ensures
        r == is_space(c),
{
    c == ' ' || c == '\t' || c == '\n' || c == '\r' || c == '\u{0b}' || c == '\u{0c}'
}

fn exec_lower_char(c: char) -> (r: char)
    ensures
        r == lower_char(c),
{
    if 'A' <= c && c <= 'Z' {
        ((c as u8) + 32) as char
    } else {
        c
    }
}

/// The normalized lookup form of `s`: trimmed, then lowercased.
fn normalize_key(s: &str) -> (r: String)
    ensures
        r@ == norm_spec(s@),
{
    let len = s.unicode_len();
    let mut p: usize = 0;
    while p < len && exec_is_space(s.get_char(p))
        invariant
            len == s@.len(),
            0 <= p <= len,
            forall|i: int| 0 <= i < p ==> is_space(#[trigger] s@[i]),
        decreases len - p,
    {
        p = p + 1;
    }
    proof {
        lemma_space_prefix_len_is(s@, p as int);
    }
    if p == len {
        proof {
            assert(trim_spec(s@) =~= Seq::<char>::empty());
            assert(norm_spec(s@) =~= Seq::<char>::empty());
        }
        return String::new();
    }
    let mut q: usize = 0;
    while q < len && exec_is_space(s.get_char(len - q - 1))
        invariant
            len == s@.len(),
            0 <= q <= len,
            forall|i: int| len - q <= i < len ==> is_space(#[trigger] s@[i]),
        decreases len - q,
    {
        q = q + 1;
    }
    proof {
        lemma_space_suffix_len_is(s@, q as int);
        // the character at p is not whitespace, so the suffix run ends before it
        assert(p < len - q);
    }
    let stop = len - q;
    let mut out = String::new();
    let mut i: usize = p;
    while i < stop
        invariant
            len == s@.len(),
            p == space_prefix_len(s@),
            q == space_suffix_len(s@),
            p <= i <= stop,
            stop == len - q,
            p < stop,
            out@ == lower_spec(s@.subrange(p as int, stop as int)).subrange(0, i - p),
        decreases stop - i,
    {
        let c = exec_lower_char(s.get_char(i));
        push_char(&mut out, c);
        proof {
            let t = s@.subrange(p as int, stop as int);
            assert(out@ =~= lower_spec(t).subrange(0, i + 1 - p));
        }
        i = i + 1;
    }
    proof {
        let t = s@.subrange(p as int, stop as int);
        assert(trim_spec(s@) == t);
        assert(out@ =~= lower_spec(t));
    }
    out
}

/// Canonicalize a brand name: a known brand (after trimming and ASCII
/// lowercasing) becomes its canonical display name; an unknown brand is
/// returned exactly as given.
pub fn format_brand(brand: String) -> (r: String)
    ensures
        r@ == canonical_brand(brand@),
{
    let key = normalize_key(brand.as_str());
    let k = key.as_str();
    if str_eq(k, "applegreen") {
        String::from_str("Applegreen")
    } else if str_eq(k, "asda express") {
        String::from_str("ASDA Express")
    } else if str_eq(k, "asda") {
        String::from_str("ASDA")
    } else if str_eq(k, "bp") {
        String::from_str("BP")
    } else if str_eq(k, "coop") {
        String::from_str("Co Op")
    } else if str_eq(k, "essar") {
        String::from_str("Essar")
    } else if str_eq(k, "esso") {
        String::from_str("Esso")
    } else if str_eq(k, "gulf") {
        String::from_str("Gulf")
    } else if str_eq(k, "harvest energy") {
        String::from_str("Harvest Energy")
    } else if str_eq(k, "jet") {
        String::from_str("JET")
    } else if str_eq(k, "morrisons") {
        String::from_str("Morrisons")
    } else if str_eq(k, "murco") {
        String::from_str("Murco")
    } else if str_eq(k, "sainsbury's") {
        String::from_str("Sainsbury's")
    } else if str_eq(k, "shell") {
        String::from_str("Shell")
    } else if str_eq(k, "tesco") {
        String::from_str("Tesco")
    } else if str_eq(k, "texaco") {
        String::from_str("Texaco")
    } else {
        brand
    }
}

} // verus!
