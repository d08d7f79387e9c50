//! Canonical names of substances.

use crate::text::{
    chars_equal, chars_of, is_space, joined, lemma_utf8_size_grows, lowercased, string_of, trimmed,
    trimmed_end, utf8_size, ASCII_LAST, THREE_BYTES_LAST, TWO_BYTES_LAST,
};
use vstd::prelude::*;

verus! {

/// Whether a character parts pieces of a text: whitespace where
/// `by_space` is set, the underscore else.
pub open spec fn separates(c: char, by_space: bool) -> bool {
    if by_space {
        is_space(c)
    } else {
        c == '_'
    }
}

/// The state of a scan for pieces: the pieces that have ended, and the
/// start of the piece that is open, if one is.
pub struct Split {
    pub done: Seq<Seq<char>>,
    pub open: Option<int>,
}

/// The scan of the first `upto` characters of a text for the pieces
/// between separators.
pub open spec fn scan_pieces(s: Seq<char>, by_space: bool, upto: int) -> Split
    decreases upto,
{
    if upto <= 0 || upto > s.len() {
        Split { done: Seq::empty(), open: None }
    } else {
        let before = scan_pieces(s, by_space, upto - 1);
        if separates(s[upto - 1], by_space) {
            match before.open {
                Some(start) => Split {
                    done: before.done.push(s.subrange(start, upto - 1)),
                    open: None,
                },
                None => before,
            }
        } else {
            match before.open {
                Some(_) => before,
                None => Split { done: before.done, open: Some(upto - 1) },
            }
        }
    }
}

/// The pieces of a text between separators, none of them empty.
pub open spec fn pieces(s: Seq<char>, by_space: bool) -> Seq<Seq<char>> {
    let last = scan_pieces(s, by_space, s.len() as int);
    match last.open {
        Some(start) => last.done.push(s.subrange(start, s.len() as int)),
        None => last.done,
    }
}

/// The characters of each word.
pub open spec fn word_views(words: Seq<Vec<char>>) -> Seq<Seq<char>> {
    words.map_values(|w: Vec<char>| w@)
}

/// The pieces of a text between separators.
pub fn split_pieces(v: &Vec<char>, by_space: bool) -> (words: Vec<Vec<char>>)
    ensures
        word_views(words@) == pieces(v@, by_space),
{
    let mut words: Vec<Vec<char>> = Vec::new();
    let mut start: Option<usize> = None;
    let mut i: usize = 0;
    assert(word_views(words@) =~= Seq::empty());
    while i < v.len()
        invariant
            i <= v.len(),
            word_views(words@) == scan_pieces(v@, by_space, i as int).done,
            match start {
                Some(at) => at <= i && scan_pieces(v@, by_space, i as int).open == Some(at as int),
                None => scan_pieces(v@, by_space, i as int).open is None,
            },
        decreases v.len() - i,
    {
        let parts = if by_space {
            crate::text::is_whitespace(v[i])
        } else {
            v[i] == '_'
        };
        if parts {
            match start {
                Some(at) => {
                    let word = crate::text::slice_of(v, at, i);
                    let ghost before = word_views(words@);
                    words.push(word);
                    assert(word_views(words@) =~= before.push(word@));
                    start = None;
                },
                None => {},
            }
        } else if start.is_none() {
            start = Some(i);
        }
        i += 1;
    }
    match start {
        Some(at) => {
            let word = crate::text::slice_of(v, at, v.len());
            let ghost before = word_views(words@);
            words.push(word);
            assert(word_views(words@) =~= before.push(word@));
        },
        None => {},
    }
    words
}

/// The first `upto` words joined with a separator between them.
pub fn join_words(words: &Vec<Vec<char>>, upto: usize, sep: char) -> (r: Vec<char>)
    requires
        upto <= words.len(),
    ensures
        r@ == joined(word_views(words@).take(upto as int), seq![sep]),
{
    let mut out: Vec<char> = Vec::new();
    let mut i: usize = 0;
    while i < upto
        invariant
            i <= upto <= words.len(),
            out@ == joined(word_views(words@).take(i as int), seq![sep]),
        decreases upto - i,
    {
        let ghost before = out@;
        if i > 0 {
            out.push(sep);
        }
        let word = &words[i];
        let mut k: usize = 0;
        let ghost middle = out@;
        while k < word.len()
            invariant
                k <= word.len(),
                out@ == middle + word@.take(k as int),
            decreases word.len() - k,
        {
            out.push(word[k]);
            k += 1;
            assert(word@.take(k as int) == word@.take(k - 1).push(word@[k - 1]));
        }
        proof {
            assert(word@.take(word.len() as int) == word@);
            let next = word_views(words@).take(i + 1);
            assert(next.drop_last() == word_views(words@).take(i as int));
            assert(next.last() == word@);
            if i == 0 {
                assert(out@ =~= word@);
            } else {
                assert(middle =~= before + seq![sep]);
            }
        }
        i += 1;
    }
    out
}

/// Whether `v[from..]` takes at most `budget` bytes in UTF-8.
fn fits_bytes(v: &Vec<char>, from: usize, budget: usize) -> (r: bool)
    requires
        from <= v.len(),
        budget < 1000,
    ensures
        r == (utf8_size(v@.subrange(from as int, v.len() as int)) <= budget),
{
    let ghost s = v@.subrange(from as int, v.len() as int);
    let mut total: usize = 0;
    let mut i: usize = from;
    assert(s.take(0) =~= Seq::empty());
    while i < v.len()
        invariant
            from <= i <= v.len(),
            s == v@.subrange(from as int, v.len() as int),
            total == utf8_size(s.take(i - from)),
            total <= budget < 1000,
        decreases v.len() - i,
    {
        let c = v[i];
        let size: usize = if c <= ASCII_LAST {
            1
        } else if c <= TWO_BYTES_LAST {
            2
        } else if c <= THREE_BYTES_LAST {
            3
        } else {
            4
        };
        proof {
            assert(s.take(i - from + 1).drop_last() == s.take(i - from));
            assert(s.take(i - from + 1).last() == v@[i as int]);
        }
        total = total + size;
        i += 1;
        if total > budget {
            proof {
                lemma_utf8_size_grows(s, i - from);
            }
            return false;
        }
    }
    assert(s.take(s.len() as int) == s);
    true
}

/// The last position of a character in a text.
pub open spec fn last_index_of(s: Seq<char>, c: char) -> Option<int>
    decreases s.len(),
{
    if s.len() == 0 {
        None
    } else if s.last() == c {
        Some(s.len() - 1)
    } else {
        last_index_of(s.drop_last(), c)
    }
}

/// The last position of a character.
fn find_last(v: &Vec<char>, c: char) -> (r: Option<usize>)
    ensures
        match r {
            Some(at) => at < v.len() && last_index_of(v@, c) == Some(at as int),
            None => last_index_of(v@, c) is None,
        },
{
    let mut i: usize = v.len();
    assert(v@.take(v.len() as int) == v@);
    while i > 0
        invariant
            i <= v.len(),
            last_index_of(v@, c) == last_index_of(v@.take(i as int), c),
        decreases i,
    {
        proof {
            assert(v@.take(i as int).drop_last() == v@.take(i - 1));
        }
        if v[i - 1] == c {
            return Some(i - 1);
        }
        i -= 1;
    }
    None
}

/// Whether a word is the symbol of an element that laboratories analyse.
pub open spec fn is_symbol(s: Seq<char>) -> bool {
    s == "As"@ || s == "Ba"@ || s == "Pb"@ || s == "Cd"@ || s == "Co"@ || s == "Cu"@ || s == "Cr"@ || s == "Hg"@ || s == "Ni"@ || s == "V"@ || s == "Zn"@ || s == "Fe"@ || s == "Mn"@ || s == "Mo"@ || s == "Sb"@ || s == "Se"@ || s == "Sn"@ || s == "Ti"@ || s == "Tl"@ || s == "W"@
}

/// Whether a word is the symbol of an element that laboratories analyse.
pub fn is_element_symbol(word: &Vec<char>) -> (r: bool)
    ensures
        r == is_symbol(word@),
{
    chars_equal(word, "As")
        || chars_equal(word, "Ba")
        || chars_equal(word, "Pb")
        || chars_equal(word, "Cd")
        || chars_equal(word, "Co")
        || chars_equal(word, "Cu")
        || chars_equal(word, "Cr")
        || chars_equal(word, "Hg")
        || chars_equal(word, "Ni")
        || chars_equal(word, "V")
        || chars_equal(word, "Zn")
        || chars_equal(word, "Fe")
        || chars_equal(word, "Mn")
        || chars_equal(word, "Mo")
        || chars_equal(word, "Sb")
        || chars_equal(word, "Se")
        || chars_equal(word, "Sn")
        || chars_equal(word, "Ti")
        || chars_equal(word, "Tl")
        || chars_equal(word, "W")
}

/// A name without a closing group in parentheses of at most six bytes,
/// such as ` (As)`, and without the whitespace before it.
pub open spec fn without_symbol_group(s: Seq<char>) -> Seq<char> {
    match last_index_of(s, '(') {
        Some(at) => if utf8_size(s.subrange(at, s.len() as int)) <= 6 && s.last() == ')' {
            trimmed_end(s.subrange(0, at))
        } else {
            s
        },
        None => s,
    }
}

/// A name of two or more words without its last word, where that is the
/// symbol of an element; the words that stay are joined by single spaces.
pub open spec fn without_symbol_word(s: Seq<char>) -> Seq<char> {
    let words = pieces(s, true);
    if words.len() >= 2 && is_symbol(words.last()) {
        joined(words.drop_last(), seq![' '])
    } else {
        s
    }
}

/// Whether a character stays in a canonical name: a lowercase letter of
/// the Swedish alphabet or a digit.
pub open spec fn stays(c: char) -> bool {
    ('a' <= c && c <= 'z') || c == 'å' || c == 'ä' || c == 'ö' || ('0' <= c && c <= '9')
}

/// A text with every character that does not stay replaced by an
/// underscore.
pub open spec fn underscored(s: Seq<char>) -> Seq<char> {
    s.map_values(|c: char| if stays(c) {
        c
    } else {
        '_'
    })
}

/// The spellings of metals.
pub open spec fn metal_aliases() -> Seq<(Seq<char>, Seq<char>)> {
    Seq::empty()
        .push(("arsenik"@, "arsenik"@))
        .push(("arsen"@, "arsenik"@))
        .push(("as"@, "arsenik"@))
        .push(("barium"@, "barium"@))
        .push(("ba"@, "barium"@))
        .push(("bly"@, "bly"@))
        .push(("pb"@, "bly"@))
        .push(("kadmium"@, "kadmium"@))
        .push(("cd"@, "kadmium"@))
        .push(("kobolt"@, "kobolt"@))
        .push(("co"@, "kobolt"@))
        .push(("koppar"@, "koppar"@))
        .push(("cu"@, "koppar"@))
        .push(("krom"@, "krom_total"@))
        .push(("krom_total"@, "krom_total"@))
        .push(("krom_totalt"@, "krom_total"@))
        .push(("cr"@, "krom_total"@))
        .push(("kvicksilver"@, "kvicksilver"@))
        .push(("hg"@, "kvicksilver"@))
        .push(("nickel"@, "nickel"@))
        .push(("ni"@, "nickel"@))
        .push(("vanadin"@, "vanadin"@))
        .push(("v"@, "vanadin"@))
        .push(("zink"@, "zink"@))
        .push(("zn"@, "zink"@))
}

/// The spellings of the aromatic solvents.
pub open spec fn solvent_aliases() -> Seq<(Seq<char>, Seq<char>)> {
    Seq::empty()
        .push(("bensen"@, "bensen"@))
        .push(("benzen"@, "bensen"@))
        .push(("toluen"@, "toluen"@))
        .push(("etylbensen"@, "etylbensen"@))
        .push(("xylener"@, "xylener"@))
        .push(("xylen"@, "xylener"@))
}

/// The spellings of the aliphatic fractions.
pub open spec fn aliphatic_aliases() -> Seq<(Seq<char>, Seq<char>)> {
    Seq::empty()
        .push(("alifater_c5_c8"@, "alifater_c5_c8"@))
        .push(("alifater_>c5_c8"@, "alifater_c5_c8"@))
        .push(("alifater__c5_c8"@, "alifater_c5_c8"@))
        .push(("alifater_c8_c10"@, "alifater_c8_c10"@))
        .push(("alifater_>c8_c10"@, "alifater_c8_c10"@))
        .push(("alifater__c8_c10"@, "alifater_c8_c10"@))
        .push(("alifater_c10_c12"@, "alifater_c10_c12"@))
        .push(("alifater_>c10_c12"@, "alifater_c10_c12"@))
        .push(("alifater__c10_c12"@, "alifater_c10_c12"@))
        .push(("alifater_c12_c16"@, "alifater_c12_c16"@))
        .push(("alifater_>c12_c16"@, "alifater_c12_c16"@))
        .push(("alifater__c12_c16"@, "alifater_c12_c16"@))
        .push(("alifater_c16_c35"@, "alifater_c16_c35"@))
        .push(("alifater_>c16_c35"@, "alifater_c16_c35"@))
        .push(("alifater__c16_c35"@, "alifater_c16_c35"@))
}

/// The spellings of the aromatic fractions.
pub open spec fn aromatic_aliases() -> Seq<(Seq<char>, Seq<char>)> {
    Seq::empty()
        .push(("aromater_>c8_c10"@, "aromater_c8_c10"@))
        .push(("aromater_c8_c10"@, "aromater_c8_c10"@))
        .push(("aromater__c8_c10"@, "aromater_c8_c10"@))
        .push(("aromater_>c10_c16"@, "aromater_c10_c16"@))
        .push(("aromater_c10_c16"@, "aromater_c10_c16"@))
        .push(("aromater__c10_c16"@, "aromater_c10_c16"@))
        .push(("aromater_>c16_c35"@, "aromater_c16_c35"@))
        .push(("aromater_c16_c35"@, "aromater_c16_c35"@))
        .push(("aromater__c16_c35"@, "aromater_c16_c35"@))
}

/// The spellings of the sums over groups of polycyclic aromatic hydrocarbons.
pub open spec fn pah_group_aliases() -> Seq<(Seq<char>, Seq<char>)> {
    Seq::empty()
        .push(("pah_l"@, "pah_l"@))
        .push(("pah_l_summa"@, "pah_l"@))
        .push(("summa_pah_l"@, "pah_l"@))
        .push(("pah_låg"@, "pah_l"@))
        .push(("summa_pah_med_låg_molekylvikt"@, "pah_l"@))
        .push(("pah_med_låg_molekylvikt"@, "pah_l"@))
        .push(("pah_m"@, "pah_m"@))
        .push(("pah_m_summa"@, "pah_m"@))
        .push(("summa_pah_m"@, "pah_m"@))
        .push(("pah_medel"@, "pah_m"@))
        .push(("summa_pah_med_medelhög_molekylvikt"@, "pah_m"@))
        .push(("pah_med_medelhög_molekylvikt"@, "pah_m"@))
        .push(("pah_h"@, "pah_h"@))
        .push(("pah_h_summa"@, "pah_h"@))
        .push(("summa_pah_h"@, "pah_h"@))
        .push(("pah_hög"@, "pah_h"@))
        .push(("summa_pah_med_hög_molekylvikt"@, "pah_h"@))
        .push(("pah_med_hög_molekylvikt"@, "pah_h"@))
        .push(("pah_16"@, "pah_16"@))
        .push(("summa_16_pah"@, "pah_16"@))
        .push(("pah_16_summa"@, "pah_16"@))
        .push(("summa_pah_16"@, "pah_16"@))
        .push(("summa_totala_pah16"@, "pah_16"@))
}

/// The spellings of the single polycyclic aromatic hydrocarbons.
pub open spec fn pah_aliases() -> Seq<(Seq<char>, Seq<char>)> {
    Seq::empty()
        .push(("naftalen"@, "naftalen"@))
        .push(("acenaftylen"@, "acenaftylen"@))
        .push(("acenaften"@, "acenaften"@))
        .push(("fluoren"@, "fluoren"@))
        .push(("fenantren"@, "fenantren"@))
        .push(("antracen"@, "antracen"@))
        .push(("fluoranten"@, "fluoranten"@))
        .push(("pyren"@, "pyren"@))
        .push(("benso_a_antracen"@, "benso_a_antracen"@))
        .push(("krysen"@, "krysen"@))
        .push(("benso_b_fluoranten"@, "benso_b_fluoranten"@))
        .push(("benso_k_fluoranten"@, "benso_k_fluoranten"@))
        .push(("benso_b_k_fluoranten"@, "benso_b_k_fluoranten"@))
        .push(("benso_a_pyren"@, "benso_a_pyren"@))
        .push(("dibenso_a_h_antracen"@, "dibenso_a_h_antracen"@))
        .push(("benso_ghi_perylen"@, "benso_ghi_perylen"@))
        .push(("benso_g_h_i_perylen"@, "benso_ghi_perylen"@))
        .push(("indeno_1_2_3_cd_pyren"@, "indeno_1_2_3_cd_pyren"@))
        .push(("indeno_123cd_pyren"@, "indeno_1_2_3_cd_pyren"@))
        .push(("indeno_123_cd_pyren"@, "indeno_1_2_3_cd_pyren"@))
}

/// The spellings of the dry-matter content.
pub open spec fn dry_matter_aliases() -> Seq<(Seq<char>, Seq<char>)> {
    Seq::empty()
        .push(("ts"@, "ts"@))
        .push(("torrsubstans"@, "ts"@))
        .push(("ts_halt"@, "ts"@))
}

/// The known spellings of substances with their canonical names.
pub open spec fn alias_table() -> Seq<(Seq<char>, Seq<char>)> {
    metal_aliases() + solvent_aliases() + aliphatic_aliases() + aromatic_aliases() + pah_group_aliases() + pah_aliases() + dry_matter_aliases()
}

/// The name that the first of the entries from `from` on with this
/// spelling gives.
pub open spec fn alias_in(table: Seq<(Seq<char>, Seq<char>)>, key: Seq<char>, from: int) -> Option<
    Seq<char>,
>
    decreases table.len() - from,
{
    if from < 0 || from >= table.len() {
        None
    } else if table[from].0 == key {
        Some(table[from].1)
    } else {
        alias_in(table, key, from + 1)
    }
}

/// The canonical name of a substance: the raw name without surrounding
/// whitespace, without a closing symbol in parentheses and without a
/// closing element symbol; in lowercase; every character but letters and
/// digits taken as a separator, and the pieces joined by single
/// underscores; and a known spelling replaced by its canonical name.
pub open spec fn normalized(raw: Seq<char>) -> Seq<char> {
    let key = joined(
        pieces(
            underscored(lowercased(without_symbol_word(without_symbol_group(trimmed(raw))))),
            false,
        ),
        seq!['_'],
    );
    match alias_in(alias_table(), key, 0) {
        Some(name) => name,
        None => key,
    }
}

/// The contents of the entries.
pub open spec fn alias_views(table: Seq<(Vec<char>, Vec<char>)>) -> Seq<(Seq<char>, Seq<char>)> {
    table.map_values(|e: (Vec<char>, Vec<char>)| (e.0@, e.1@))
}

fn add_alias(table: &mut Vec<(Vec<char>, Vec<char>)>, key: &str, name: &str)
    ensures
        alias_views(final(table)@) == alias_views(old(table)@).push((key@, name@)),
{
    let entry = (chars_of(key), chars_of(name));
    table.push(entry);
    assert(alias_views(table@) =~= alias_views(old(table)@).push((key@, name@)));
}

fn add_metal_aliases(table: &mut Vec<(Vec<char>, Vec<char>)>)
    ensures
        alias_views(final(table)@) == alias_views(old(table)@) + metal_aliases(),
{
    let mut group: Vec<(Vec<char>, Vec<char>)> = Vec::new();
    assert(alias_views(group@) =~= Seq::empty());
    add_alias(&mut group, "arsenik", "arsenik");
    add_alias(&mut group, "arsen", "arsenik");
    add_alias(&mut group, "as", "arsenik");
    add_alias(&mut group, "barium", "barium");
    add_alias(&mut group, "ba", "barium");
    add_alias(&mut group, "bly", "bly");
    add_alias(&mut group, "pb", "bly");
    add_alias(&mut group, "kadmium", "kadmium");
    add_alias(&mut group, "cd", "kadmium");
    add_alias(&mut group, "kobolt", "kobolt");
    add_alias(&mut group, "co", "kobolt");
    add_alias(&mut group, "koppar", "koppar");
    add_alias(&mut group, "cu", "koppar");
    add_alias(&mut group, "krom", "krom_total");
    add_alias(&mut group, "krom_total", "krom_total");
    add_alias(&mut group, "krom_totalt", "krom_total");
    add_alias(&mut group, "cr", "krom_total");
    add_alias(&mut group, "kvicksilver", "kvicksilver");
    add_alias(&mut group, "hg", "kvicksilver");
    add_alias(&mut group, "nickel", "nickel");
    add_alias(&mut group, "ni", "nickel");
    add_alias(&mut group, "vanadin", "vanadin");
    add_alias(&mut group, "v", "vanadin");
    add_alias(&mut group, "zink", "zink");
    add_alias(&mut group, "zn", "zink");
    let ghost before = alias_views(table@);
    let ghost added = alias_views(group@);
    table.append(&mut group);
    assert(alias_views(table@) =~= before + added);
}

fn add_solvent_aliases(table: &mut Vec<(Vec<char>, Vec<char>)>)
    ensures
        alias_views(final(table)@) == alias_views(old(table)@) + solvent_aliases(),
{
    let mut group: Vec<(Vec<char>, Vec<char>)> = Vec::new();
    assert(alias_views(group@) =~= Seq::empty());
    add_alias(&mut group, "bensen", "bensen");
    add_alias(&mut group, "benzen", "bensen");
    add_alias(&mut group, "toluen", "toluen");
    add_alias(&mut group, "etylbensen", "etylbensen");
    add_alias(&mut group, "xylener", "xylener");
    add_alias(&mut group, "xylen", "xylener");
    let ghost before = alias_views(table@);
    let ghost added = alias_views(group@);
    table.append(&mut group);
    assert(alias_views(table@) =~= before + added);
}

fn add_aliphatic_aliases(table: &mut Vec<(Vec<char>, Vec<char>)>)
    ensures
        alias_views(final(table)@) == alias_views(old(table)@) + aliphatic_aliases(),
{
    let mut group: Vec<(Vec<char>, Vec<char>)> = Vec::new();
    assert(alias_views(group@) =~= Seq::empty());
    add_alias(&mut group, "alifater_c5_c8", "alifater_c5_c8");
    add_alias(&mut group, "alifater_>c5_c8", "alifater_c5_c8");
    add_alias(&mut group, "alifater__c5_c8", "alifater_c5_c8");
    add_alias(&mut group, "alifater_c8_c10", "alifater_c8_c10");
    add_alias(&mut group, "alifater_>c8_c10", "alifater_c8_c10");
    add_alias(&mut group, "alifater__c8_c10", "alifater_c8_c10");
    add_alias(&mut group, "alifater_c10_c12", "alifater_c10_c12");
    add_alias(&mut group, "alifater_>c10_c12", "alifater_c10_c12");
    add_alias(&mut group, "alifater__c10_c12", "alifater_c10_c12");
    add_alias(&mut group, "alifater_c12_c16", "alifater_c12_c16");
    add_alias(&mut group, "alifater_>c12_c16", "alifater_c12_c16");
    add_alias(&mut group, "alifater__c12_c16", "alifater_c12_c16");
    add_alias(&mut group, "alifater_c16_c35", "alifater_c16_c35");
    add_alias(&mut group, "alifater_>c16_c35", "alifater_c16_c35");
    add_alias(&mut group, "alifater__c16_c35", "alifater_c16_c35");
    let ghost before = alias_views(table@);
    let ghost added = alias_views(group@);
    table.append(&mut group);
    assert(alias_views(table@) =~= before + added);
}

fn add_aromatic_aliases(table: &mut Vec<(Vec<char>, Vec<char>)>)
    ensures
        alias_views(final(table)@) == alias_views(old(table)@) + aromatic_aliases(),
{
    let mut group: Vec<(Vec<char>, Vec<char>)> = Vec::new();
    assert(alias_views(group@) =~= Seq::empty());
    add_alias(&mut group, "aromater_>c8_c10", "aromater_c8_c10");
    add_alias(&mut group, "aromater_c8_c10", "aromater_c8_c10");
    add_alias(&mut group, "aromater__c8_c10", "aromater_c8_c10");
    add_alias(&mut group, "aromater_>c10_c16", "aromater_c10_c16");
    add_alias(&mut group, "aromater_c10_c16", "aromater_c10_c16");
    add_alias(&mut group, "aromater__c10_c16", "aromater_c10_c16");
    add_alias(&mut group, "aromater_>c16_c35", "aromater_c16_c35");
    add_alias(&mut group, "aromater_c16_c35", "aromater_c16_c35");
    add_alias(&mut group, "aromater__c16_c35", "aromater_c16_c35");
    let ghost before = alias_views(table@);
    let ghost added = alias_views(group@);
    table.append(&mut group);
    assert(alias_views(table@) =~= before + added);
}

fn add_pah_group_aliases(table: &mut Vec<(Vec<char>, Vec<char>)>)
    ensures
        alias_views(final(table)@) == alias_views(old(table)@) + pah_group_aliases(),
{
    let mut group: Vec<(Vec<char>, Vec<char>)> = Vec::new();
    assert(alias_views(group@) =~= Seq::empty());
    add_alias(&mut group, "pah_l", "pah_l");
    add_alias(&mut group, "pah_l_summa", "pah_l");
    add_alias(&mut group, "summa_pah_l", "pah_l");
    add_alias(&mut group, "pah_låg", "pah_l");
    add_alias(&mut group, "summa_pah_med_låg_molekylvikt", "pah_l");
    add_alias(&mut group, "pah_med_låg_molekylvikt", "pah_l");
    add_alias(&mut group, "pah_m", "pah_m");
    add_alias(&mut group, "pah_m_summa", "pah_m");
    add_alias(&mut group, "summa_pah_m", "pah_m");
    add_alias(&mut group, "pah_medel", "pah_m");
    add_alias(&mut group, "summa_pah_med_medelhög_molekylvikt", "pah_m");
    add_alias(&mut group, "pah_med_medelhög_molekylvikt", "pah_m");
    add_alias(&mut group, "pah_h", "pah_h");
    add_alias(&mut group, "pah_h_summa", "pah_h");
    add_alias(&mut group, "summa_pah_h", "pah_h");
    add_alias(&mut group, "pah_hög", "pah_h");
    add_alias(&mut group, "summa_pah_med_hög_molekylvikt", "pah_h");
    add_alias(&mut group, "pah_med_hög_molekylvikt", "pah_h");
    add_alias(&mut group, "pah_16", "pah_16");
    add_alias(&mut group, "summa_16_pah", "pah_16");
    add_alias(&mut group, "pah_16_summa", "pah_16");
    add_alias(&mut group, "summa_pah_16", "pah_16");
    add_alias(&mut group, "summa_totala_pah16", "pah_16");
    let ghost before = alias_views(table@);
    let ghost added = alias_views(group@);
    table.append(&mut group);
    assert(alias_views(table@) =~= before + added);
}

fn add_pah_aliases(table: &mut Vec<(Vec<char>, Vec<char>)>)
    ensures
        alias_views(final(table)@) == alias_views(old(table)@) + pah_aliases(),
{
    let mut group: Vec<(Vec<char>, Vec<char>)> = Vec::new();
    assert(alias_views(group@) =~= Seq::empty());
    add_alias(&mut group, "naftalen", "naftalen");
    add_alias(&mut group, "acenaftylen", "acenaftylen");
    add_alias(&mut group, "acenaften", "acenaften");
    add_alias(&mut group, "fluoren", "fluoren");
    add_alias(&mut group, "fenantren", "fenantren");
    add_alias(&mut group, "antracen", "antracen");
    add_alias(&mut group, "fluoranten", "fluoranten");
    add_alias(&mut group, "pyren", "pyren");
    add_alias(&mut group, "benso_a_antracen", "benso_a_antracen");
    add_alias(&mut group, "krysen", "krysen");
    add_alias(&mut group, "benso_b_fluoranten", "benso_b_fluoranten");
    add_alias(&mut group, "benso_k_fluoranten", "benso_k_fluoranten");
    add_alias(&mut group, "benso_b_k_fluoranten", "benso_b_k_fluoranten");
    add_alias(&mut group, "benso_a_pyren", "benso_a_pyren");
    add_alias(&mut group, "dibenso_a_h_antracen", "dibenso_a_h_antracen");
    add_alias(&mut group, "benso_ghi_perylen", "benso_ghi_perylen");
    add_alias(&mut group, "benso_g_h_i_perylen", "benso_ghi_perylen");
    add_alias(&mut group, "indeno_1_2_3_cd_pyren", "indeno_1_2_3_cd_pyren");
    add_alias(&mut group, "indeno_123cd_pyren", "indeno_1_2_3_cd_pyren");
    add_alias(&mut group, "indeno_123_cd_pyren", "indeno_1_2_3_cd_pyren");
    let ghost before = alias_views(table@);
    let ghost added = alias_views(group@);
    table.append(&mut group);
    assert(alias_views(table@) =~= before + added);
}

fn add_dry_matter_aliases(table: &mut Vec<(Vec<char>, Vec<char>)>)
    ensures
        alias_views(final(table)@) == alias_views(old(table)@) + dry_matter_aliases(),
{
    let mut group: Vec<(Vec<char>, Vec<char>)> = Vec::new();
    assert(alias_views(group@) =~= Seq::empty());
    add_alias(&mut group, "ts", "ts");
    add_alias(&mut group, "torrsubstans", "ts");
    add_alias(&mut group, "ts_halt", "ts");
    let ghost before = alias_views(table@);
    let ghost added = alias_views(group@);
    table.append(&mut group);
    assert(alias_views(table@) =~= before + added);
}

/// The known spellings of substances with their canonical names.
pub fn aliases() -> (table: Vec<(Vec<char>, Vec<char>)>)
    ensures
        alias_views(table@) == alias_table(),
{
    let mut table: Vec<(Vec<char>, Vec<char>)> = Vec::new();
    assert(alias_views(table@) =~= Seq::empty());
    add_metal_aliases(&mut table);
    add_solvent_aliases(&mut table);
    add_aliphatic_aliases(&mut table);
    add_aromatic_aliases(&mut table);
    add_pah_group_aliases(&mut table);
    add_pah_aliases(&mut table);
    add_dry_matter_aliases(&mut table);
    assert(alias_views(table@) =~= alias_table());
    table
}

/// The name that the entries give for a spelling.
fn find_alias<'a>(table: &'a Vec<(Vec<char>, Vec<char>)>, key: &Vec<char>) -> (r: Option<
    &'a Vec<char>,
>)
    ensures
        match r {
            Some(name) => alias_in(alias_views(table@), key@, 0) == Some(name@),
            None => alias_in(alias_views(table@), key@, 0) is None,
        },
{
    let mut k: usize = 0;
    while k < table.len()
        invariant
            k <= table.len(),
            alias_in(alias_views(table@), key@, 0) == alias_in(alias_views(table@), key@, k as int),
        decreases table.len() - k,
    {
        assert(alias_views(table@)[k as int] == (table@[k as int].0@, table@[k as int].1@));
        if crate::text::vec_equal(&table[k].0, key) {
            return Some(&table[k].1);
        }
        k += 1;
    }
    None
}

/// The canonical name of a substance.
pub fn normalize_substance(raw: &str) -> (r: String)
    ensures
        r@ == normalized(raw@),
{
    let mut s = crate::text::trimmed_chars(raw);
    match find_last(&s, '(') {
        Some(at) => {
            if fits_bytes(&s, at, 6) && s[s.len() - 1] == ')' {
                let end = crate::text::skip_spaces_back(&s, 0, at);
                proof {
                    assert(s@.subrange(0, at as int).subrange(0, end as int) =~= s@.subrange(
                        0,
                        end as int,
                    ));
                }
                s = crate::text::slice_of(&s, 0, end);
            }
        },
        None => {},
    }
    assert(s@ == without_symbol_group(trimmed(raw@)));
    let ghost grouped = s@;
    let words = split_pieces(&s, true);
    if words.len() >= 2 && is_element_symbol(&words[words.len() - 1]) {
        proof {
            assert(word_views(words@).take(words.len() - 1) == word_views(words@).drop_last());
            assert(word_views(words@).last() == words@[words.len() - 1]@);
        }
        s = join_words(&words, words.len() - 1, ' ');
    }
    assert(s@ == without_symbol_word(grouped));
    let lower = crate::text::lowercase_chars(&s);
    let mut mapped: Vec<char> = Vec::new();
    let mut i: usize = 0;
    while i < lower.len()
        invariant
            i <= lower.len(),
            mapped@ == underscored(lower@).take(i as int),
        decreases lower.len() - i,
    {
        let c = lower[i];
        let keep = ('a' <= c && c <= 'z') || c == 'å' || c == 'ä' || c == 'ö' || ('0' <= c && c
            <= '9');
        mapped.push(if keep {
            c
        } else {
            '_'
        });
        i += 1;
        assert(underscored(lower@).take(i as int) =~= underscored(lower@).take(i - 1).push(
            underscored(lower@)[i - 1],
        ));
    }
    assert(underscored(lower@).take(lower.len() as int) =~= underscored(lower@));
    let parts = split_pieces(&mapped, false);
    assert(word_views(parts@).take(parts.len() as int) == word_views(parts@));
    let key = join_words(&parts, parts.len(), '_');
    let table = aliases();
    match find_alias(&table, &key) {
        Some(name) => string_of(name),
        None => string_of(&key),
    }
}

} // verus!
