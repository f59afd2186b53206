use vstd::prelude::*;
use crate::text::{occurs, occurs_at, replace_all, replaced, lemma_replaced_absent, lemma_replaced_whole};

verus! {

/// A character allowed in a placeholder key: an ASCII letter or digit, `-` or `_`.
pub open spec fn is_key_char(c: char) -> bool {
    ('a' <= c && c <= 'z') || ('A' <= c && c <= 'Z') || ('0' <= c && c <= '9') || c == '-'
        || c == '_'
}

/// A placeholder key: one or more key characters.
pub open spec fn is_key(k: Seq<char>) -> bool {
    k.len() > 0 && forall|i: int| 0 <= i < k.len() ==> is_key_char(#[trigger] k[i])
}

/// `s` holds neither `{` nor `}`.
pub open spec fn brace_free(s: Seq<char>) -> bool {
    forall|i: int| 0 <= i < s.len() ==> #[trigger] s[i] != '{' && s[i] != '}'
}

/// `s` holds no `{`.
pub open spec fn no_open_brace(s: Seq<char>) -> bool {
    forall|i: int| 0 <= i < s.len() ==> #[trigger] s[i] != '{'
}

/// The placeholder token for key `k`: `{k}`.
pub open spec fn bracketed(k: Seq<char>) -> Seq<char> {
    seq!['{'] + k + seq!['}']
}

/// `s` holds a placeholder token: `{`, one or more key characters, `}`.
pub open spec fn has_placeholder(s: Seq<char>) -> bool {
    exists|i: int, j: int|
        #![trigger s[i], s[j]]
        0 <= i && i + 1 < j && j < s.len() && s[i] == '{' && s[j] == '}' && is_key(
            s.subrange(i + 1, j),
        )
}

/// An icon table that lookups and substitution can rely on: every key is a
/// placeholder key, no two entries share a key, and no glyph opens a brace.
pub open spec fn table_ok(es: Seq<(Seq<char>, Seq<char>)>) -> bool {
    &&& forall|i: int| 0 <= i < es.len() ==> is_key(#[trigger] es[i].0)
    &&& forall|i: int| 0 <= i < es.len() ==> no_open_brace(#[trigger] es[i].1)
    &&& forall|i: int, j: int|
        0 <= i < es.len() && 0 <= j < es.len() && i != j ==> #[trigger] es[i].0 != #[trigger] es[j].0
}

/// The glyph of the first entry whose key is `k`.
pub open spec fn lookup_in(es: Seq<(Seq<char>, Seq<char>)>, k: Seq<char>) -> Option<Seq<char>>
    decreases es.len(),
{
    if es.len() == 0 {
        None
    } else if es[0].0 == k {
        Some(es[0].1)
    } else {
        lookup_in(es.drop_first(), k)
    }
}

/// `s` after replacing, entry by entry in table order, every occurrence of
/// each entry's token by its glyph.
pub open spec fn substituted_by(s: Seq<char>, es: Seq<(Seq<char>, Seq<char>)>) -> Seq<char>
    decreases es.len(),
{
    if es.len() == 0 {
        s
    } else {
        replaced(substituted_by(s, es.drop_last()), bracketed(es.last().0), es.last().1)
    }
}

/// The key and glyph of each entry, as character sequences.
pub open spec fn pairs_view(v: Seq<(String, String)>) -> Seq<(Seq<char>, Seq<char>)> {
    v.map_values(|e: (String, String)| (e.0@, e.1@))
}

/// The built-in icon table.
pub open spec fn standard_table() -> Seq<(Seq<char>, Seq<char>)> {
    seq![
        ("folder"@, "\u{f07b}"@),
        ("file"@, "\u{f15b}"@),
        ("doc"@, "\u{f718}"@),
        ("img"@, "\u{f71e}"@),
        ("pdf"@, "\u{f724}"@),
        ("zip"@, "\u{f1c6}"@),
        ("ok"@, "\u{f00c}"@),
        ("check"@, "\u{f00c}"@),
        ("success"@, "\u{f00c}"@),
        ("error"@, "\u{f057}"@),
        ("fail"@, "\u{f057}"@),
        ("warning"@, "\u{f071}"@),
        ("warn"@, "\u{f071}"@),
        ("info"@, "\u{f05a}"@),
        ("question"@, "\u{f128}"@),
        ("help"@, "\u{f059}"@),
        ("arrow"@, "\u{f054}"@),
        ("arrow-right"@, "\u{f054}"@),
        ("arrow-left"@, "\u{f053}"@),
        ("arrow-up"@, "\u{f077}"@),
        ("arrow-down"@, "\u{f078}"@),
        ("gear"@, "\u{f013}"@),
        ("settings"@, "\u{f013}"@),
        ("home"@, "\u{f015}"@),
        ("star"@, "\u{f005}"@),
        ("heart"@, "\u{f004}"@),
        ("trash"@, "\u{f1f8}"@),
        ("edit"@, "\u{f040}"@),
        ("add"@, "\u{f055}"@),
        ("plus"@, "\u{f055}"@),
        ("minus"@, "\u{f056}"@),
        ("close"@, "\u{f00d}"@),
        ("search"@, "\u{f002}"@),
        ("git"@, "\u{f1d3}"@),
        ("branch"@, "\u{e725}"@),
        ("commit"@, "\u{e729}"@),
        ("merge"@, "\u{e727}"@),
        ("rust"@, "\u{e7a8}"@),
        ("python"@, "\u{e235}"@),
        ("js"@, "\u{e781}"@),
        ("ts"@, "\u{e628}"@),
        ("java"@, "\u{e738}"@),
        ("go"@, "\u{e627}"@),
        ("c"@, "\u{e61e}"@),
        ("cpp"@, "\u{e61d}"@),
        ("linux"@, "\u{f17c}"@),
        ("apple"@, "\u{f179}"@),
        ("windows"@, "\u{f17a}"@),
        ("play"@, "\u{f04b}"@),
        ("pause"@, "\u{f04c}"@),
        ("stop"@, "\u{f04d}"@),
        ("volume"@, "\u{f028}"@),
        ("mute"@, "\u{f026}"@),
        ("wifi"@, "\u{f1eb}"@),
        ("network"@, "\u{f502}"@),
        ("cloud"@, "\u{f0c2}"@),
        ("download"@, "\u{f019}"@),
        ("upload"@, "\u{f093}"@),
        ("clock"@, "\u{f017}"@),
        ("calendar"@, "\u{f073}"@),
        ("time"@, "\u{f017}"@),
        ("user"@, "\u{f007}"@),
        ("users"@, "\u{f0c0}"@),
        ("lock"@, "\u{f023}"@),
        ("unlock"@, "\u{f09c}"@),
        ("demo"@, "\u{f0c3}"@),
    ]
}

/// The position of a key of the built-in table, told apart by its length
/// and a few of its characters; `-1` for other text.
spec fn standard_rank(k: Seq<char>) -> int {
    if k.len() == 6 && k[0] == 'f' && k[5] == 'r' && k[1] == 'o' {
        0
    } else     if k.len() == 4 && k[0] == 'f' && k[3] == 'e' && k[1] == 'i' {
        1
    } else     if k.len() == 3 && k[0] == 'd' && k[2] == 'c' && k[1] == 'o' {
        2
    } else     if k.len() == 3 && k[0] == 'i' && k[2] == 'g' && k[1] == 'm' {
        3
    } else     if k.len() == 3 && k[0] == 'p' && k[2] == 'f' && k[1] == 'd' {
        4
    } else     if k.len() == 3 && k[0] == 'z' && k[2] == 'p' && k[1] == 'i' {
        5
    } else     if k.len() == 2 && k[0] == 'o' && k[1] == 'k' && k[1] == 'k' {
        6
    } else     if k.len() == 5 && k[0] == 'c' && k[4] == 'k' && k[1] == 'h' {
        7
    } else     if k.len() == 7 && k[0] == 's' && k[6] == 's' && k[1] == 'u' {
        8
    } else     if k.len() == 5 && k[0] == 'e' && k[4] == 'r' && k[1] == 'r' {
        9
    } else     if k.len() == 4 && k[0] == 'f' && k[3] == 'l' && k[1] == 'a' {
        10
    } else     if k.len() == 7 && k[0] == 'w' && k[6] == 'g' && k[1] == 'a' {
        11
    } else     if k.len() == 4 && k[0] == 'w' && k[3] == 'n' && k[1] == 'a' {
        12
    } else     if k.len() == 4 && k[0] == 'i' && k[3] == 'o' && k[1] == 'n' {
        13
    } else     if k.len() == 8 && k[0] == 'q' && k[7] == 'n' && k[1] == 'u' {
        14
    } else     if k.len() == 4 && k[0] == 'h' && k[3] == 'p' && k[1] == 'e' {
        15
    } else     if k.len() == 5 && k[0] == 'a' && k[4] == 'w' && k[1] == 'r' {
        16
    } else     if k.len() == 11 && k[0] == 'a' && k[10] == 't' && k[1] == 'r' {
        17
    } else     if k.len() == 10 && k[0] == 'a' && k[9] == 't' && k[1] == 'r' {
        18
    } else     if k.len() == 8 && k[0] == 'a' && k[7] == 'p' && k[1] == 'r' {
        19
    } else     if k.len() == 10 && k[0] == 'a' && k[9] == 'n' && k[1] == 'r' {
        20
    } else     if k.len() == 4 && k[0] == 'g' && k[3] == 'r' && k[1] == 'e' {
        21
    } else     if k.len() == 8 && k[0] == 's' && k[7] == 's' && k[1] == 'e' {
        22
    } else     if k.len() == 4 && k[0] == 'h' && k[3] == 'e' && k[1] == 'o' {
        23
    } else     if k.len() == 4 && k[0] == 's' && k[3] == 'r' && k[1] == 't' {
        24
    } else     if k.len() == 5 && k[0] == 'h' && k[4] == 't' && k[1] == 'e' {
        25
    } else     if k.len() == 5 && k[0] == 't' && k[4] == 'h' && k[1] == 'r' {
        26
    } else     if k.len() == 4 && k[0] == 'e' && k[3] == 't' && k[1] == 'd' {
        27
    } else     if k.len() == 3 && k[0] == 'a' && k[2] == 'd' && k[1] == 'd' {
        28
    } else     if k.len() == 4 && k[0] == 'p' && k[3] == 's' && k[1] == 'l' {
        29
    } else     if k.len() == 5 && k[0] == 'm' && k[4] == 's' && k[1] == 'i' {
        30
    } else     if k.len() == 5 && k[0] == 'c' && k[4] == 'e' && k[1] == 'l' {
        31
    } else     if k.len() == 6 && k[0] == 's' && k[5] == 'h' && k[1] == 'e' {
        32
    } else     if k.len() == 3 && k[0] == 'g' && k[2] == 't' && k[1] == 'i' {
        33
    } else     if k.len() == 6 && k[0] == 'b' && k[5] == 'h' && k[1] == 'r' {
        34
    } else     if k.len() == 6 && k[0] == 'c' && k[5] == 't' && k[1] == 'o' {
        35
    } else     if k.len() == 5 && k[0] == 'm' && k[4] == 'e' && k[1] == 'e' {
        36
    } else     if k.len() == 4 && k[0] == 'r' && k[3] == 't' && k[1] == 'u' {
        37
    } else     if k.len() == 6 && k[0] == 'p' && k[5] == 'n' && k[1] == 'y' {
        38
    } else     if k.len() == 2 && k[0] == 'j' && k[1] == 's' && k[1] == 's' {
        39
    } else     if k.len() == 2 && k[0] == 't' && k[1] == 's' && k[1] == 's' {
        40
    } else     if k.len() == 4 && k[0] == 'j' && k[3] == 'a' && k[1] == 'a' {
        41
    } else     if k.len() == 2 && k[0] == 'g' && k[1] == 'o' && k[1] == 'o' {
        42
    } else     if k.len() == 1 && k[0] == 'c' {
        43
    } else     if k.len() == 3 && k[0] == 'c' && k[2] == 'p' && k[1] == 'p' {
        44
    } else     if k.len() == 5 && k[0] == 'l' && k[4] == 'x' && k[1] == 'i' {
        45
    } else     if k.len() == 5 && k[0] == 'a' && k[4] == 'e' && k[1] == 'p' {
        46
    } else     if k.len() == 7 && k[0] == 'w' && k[6] == 's' && k[1] == 'i' {
        47
    } else     if k.len() == 4 && k[0] == 'p' && k[3] == 'y' && k[1] == 'l' {
        48
    } else     if k.len() == 5 && k[0] == 'p' && k[4] == 'e' && k[1] == 'a' {
        49
    } else     if k.len() == 4 && k[0] == 's' && k[3] == 'p' && k[1] == 't' {
        50
    } else     if k.len() == 6 && k[0] == 'v' && k[5] == 'e' && k[1] == 'o' {
        51
    } else     if k.len() == 4 && k[0] == 'm' && k[3] == 'e' && k[1] == 'u' {
        52
    } else     if k.len() == 4 && k[0] == 'w' && k[3] == 'i' && k[1] == 'i' {
        53
    } else     if k.len() == 7 && k[0] == 'n' && k[6] == 'k' && k[1] == 'e' {
        54
    } else     if k.len() == 5 && k[0] == 'c' && k[4] == 'd' && k[1] == 'l' {
        55
    } else     if k.len() == 8 && k[0] == 'd' && k[7] == 'd' && k[1] == 'o' {
        56
    } else     if k.len() == 6 && k[0] == 'u' && k[5] == 'd' && k[1] == 'p' {
        57
    } else     if k.len() == 5 && k[0] == 'c' && k[4] == 'k' && k[1] == 'l' {
        58
    } else     if k.len() == 8 && k[0] == 'c' && k[7] == 'r' && k[1] == 'a' {
        59
    } else     if k.len() == 4 && k[0] == 't' && k[3] == 'e' && k[1] == 'i' {
        60
    } else     if k.len() == 4 && k[0] == 'u' && k[3] == 'r' && k[1] == 's' {
        61
    } else     if k.len() == 5 && k[0] == 'u' && k[4] == 's' && k[1] == 's' {
        62
    } else     if k.len() == 4 && k[0] == 'l' && k[3] == 'k' && k[1] == 'o' {
        63
    } else     if k.len() == 6 && k[0] == 'u' && k[5] == 'k' && k[1] == 'n' {
        64
    } else     if k.len() == 4 && k[0] == 'd' && k[3] == 'o' && k[1] == 'e' {
        65
    } else {
        -1
    }
}

proof fn lemma_standard_entries()
    ensures
        forall|i: int|
            0 <= i < standard_table().len() ==> is_key(#[trigger] standard_table()[i].0)
                && no_open_brace(standard_table()[i].1) && standard_rank(standard_table()[i].0) == i,
{
    reveal_strlit("folder");
    reveal_strlit("\u{f07b}");
    reveal_strlit("file");
    reveal_strlit("\u{f15b}");
    reveal_strlit("doc");
    reveal_strlit("\u{f718}");
    reveal_strlit("img");
    reveal_strlit("\u{f71e}");
    reveal_strlit("pdf");
    reveal_strlit("\u{f724}");
    reveal_strlit("zip");
    reveal_strlit("\u{f1c6}");
    reveal_strlit("ok");
    reveal_strlit("\u{f00c}");
    reveal_strlit("check");
    reveal_strlit("\u{f00c}");
    reveal_strlit("success");
    reveal_strlit("\u{f00c}");
    reveal_strlit("error");
    reveal_strlit("\u{f057}");
    reveal_strlit("fail");
    reveal_strlit("\u{f057}");
    reveal_strlit("warning");
    reveal_strlit("\u{f071}");
    reveal_strlit("warn");
    reveal_strlit("\u{f071}");
    reveal_strlit("info");
    reveal_strlit("\u{f05a}");
    reveal_strlit("question");
    reveal_strlit("\u{f128}");
    reveal_strlit("help");
    reveal_strlit("\u{f059}");
    reveal_strlit("arrow");
    reveal_strlit("\u{f054}");
    reveal_strlit("arrow-right");
    reveal_strlit("\u{f054}");
    reveal_strlit("arrow-left");
    reveal_strlit("\u{f053}");
    reveal_strlit("arrow-up");
    reveal_strlit("\u{f077}");
    reveal_strlit("arrow-down");
    reveal_strlit("\u{f078}");
    reveal_strlit("gear");
    reveal_strlit("\u{f013}");
    reveal_strlit("settings");
    reveal_strlit("\u{f013}");
    reveal_strlit("home");
    reveal_strlit("\u{f015}");
    reveal_strlit("star");
    reveal_strlit("\u{f005}");
    reveal_strlit("heart");
    reveal_strlit("\u{f004}");
    reveal_strlit("trash");
    reveal_strlit("\u{f1f8}");
    reveal_strlit("edit");
    reveal_strlit("\u{f040}");
    reveal_strlit("add");
    reveal_strlit("\u{f055}");
    reveal_strlit("plus");
    reveal_strlit("\u{f055}");
    reveal_strlit("minus");
    reveal_strlit("\u{f056}");
    reveal_strlit("close");
    reveal_strlit("\u{f00d}");
    reveal_strlit("search");
    reveal_strlit("\u{f002}");
    reveal_strlit("git");
    reveal_strlit("\u{f1d3}");
    reveal_strlit("branch");
    reveal_strlit("\u{e725}");
    reveal_strlit("commit");
    reveal_strlit("\u{e729}");
    reveal_strlit("merge");
    reveal_strlit("\u{e727}");
    reveal_strlit("rust");
    reveal_strlit("\u{e7a8}");
    reveal_strlit("python");
    reveal_strlit("\u{e235}");
    reveal_strlit("js");
    reveal_strlit("\u{e781}");
    reveal_strlit("ts");
    reveal_strlit("\u{e628}");
    reveal_strlit("java");
    reveal_strlit("\u{e738}");
    reveal_strlit("go");
    reveal_strlit("\u{e627}");
    reveal_strlit("c");
    reveal_strlit("\u{e61e}");
    reveal_strlit("cpp");
    reveal_strlit("\u{e61d}");
    reveal_strlit("linux");
    reveal_strlit("\u{f17c}");
    reveal_strlit("apple");
    reveal_strlit("\u{f179}");
    reveal_strlit("windows");
    reveal_strlit("\u{f17a}");
    reveal_strlit("play");
    reveal_strlit("\u{f04b}");
    reveal_strlit("pause");
    reveal_strlit("\u{f04c}");
    reveal_strlit("stop");
    reveal_strlit("\u{f04d}");
    reveal_strlit("volume");
    reveal_strlit("\u{f028}");
    reveal_strlit("mute");
    reveal_strlit("\u{f026}");
    reveal_strlit("wifi");
    reveal_strlit("\u{f1eb}");
    reveal_strlit("network");
    reveal_strlit("\u{f502}");
    reveal_strlit("cloud");
    reveal_strlit("\u{f0c2}");
    reveal_strlit("download");
    reveal_strlit("\u{f019}");
    reveal_strlit("upload");
    reveal_strlit("\u{f093}");
    reveal_strlit("clock");
    reveal_strlit("\u{f017}");
    reveal_strlit("calendar");
    reveal_strlit("\u{f073}");
    reveal_strlit("time");
    reveal_strlit("\u{f017}");
    reveal_strlit("user");
    reveal_strlit("\u{f007}");
    reveal_strlit("users");
    reveal_strlit("\u{f0c0}");
    reveal_strlit("lock");
    reveal_strlit("\u{f023}");
    reveal_strlit("unlock");
    reveal_strlit("\u{f09c}");
    reveal_strlit("demo");
    reveal_strlit("\u{f0c3}");
    let es = standard_table();
    assert forall|i: int| 0 <= i < es.len() implies is_key(#[trigger] es[i].0) && no_open_brace(
        es[i].1,
    ) && standard_rank(es[i].0) == i by {
        if i == 0 {
        } else if i == 1 {
        } else if i == 2 {
        } else if i == 3 {
        } else if i == 4 {
        } else if i == 5 {
        } else if i == 6 {
        } else if i == 7 {
        } else if i == 8 {
        } else if i == 9 {
        } else if i == 10 {
        } else if i == 11 {
        } else if i == 12 {
        } else if i == 13 {
        } else if i == 14 {
        } else if i == 15 {
        } else if i == 16 {
        } else if i == 17 {
        } else if i == 18 {
        } else if i == 19 {
        } else if i == 20 {
        } else if i == 21 {
        } else if i == 22 {
        } else if i == 23 {
        } else if i == 24 {
        } else if i == 25 {
        } else if i == 26 {
        } else if i == 27 {
        } else if i == 28 {
        } else if i == 29 {
        } else if i == 30 {
        } else if i == 31 {
        } else if i == 32 {
        } else if i == 33 {
        } else if i == 34 {
        } else if i == 35 {
        } else if i == 36 {
        } else if i == 37 {
        } else if i == 38 {
        } else if i == 39 {
        } else if i == 40 {
        } else if i == 41 {
        } else if i == 42 {
        } else if i == 43 {
        } else if i == 44 {
        } else if i == 45 {
        } else if i == 46 {
        } else if i == 47 {
        } else if i == 48 {
        } else if i == 49 {
        } else if i == 50 {
        } else if i == 51 {
        } else if i == 52 {
        } else if i == 53 {
        } else if i == 54 {
        } else if i == 55 {
        } else if i == 56 {
        } else if i == 57 {
        } else if i == 58 {
        } else if i == 59 {
        } else if i == 60 {
        } else if i == 61 {
        } else if i == 62 {
        } else if i == 63 {
        } else if i == 64 {
        } else if i == 65 {
        }
    }
}

/// The built-in table is a valid table.
pub proof fn lemma_standard_table_ok()
    ensures
        table_ok(standard_table()),
{
    lemma_standard_entries();
    let es = standard_table();
    assert forall|i: int| 0 <= i < es.len() implies is_key(#[trigger] es[i].0) by {}
    assert forall|i: int| 0 <= i < es.len() implies no_open_brace(#[trigger] es[i].1) by {
        assert(is_key(es[i].0));
    }
    assert forall|i: int, j: int|
        0 <= i < es.len() && 0 <= j < es.len() && i != j implies #[trigger] es[i].0
        != #[trigger] es[j].0 by {
        if es[i].0 == es[j].0 {
            assert(standard_rank(es[i].0) == standard_rank(es[j].0));
        }
    }
}

/// An ordered table from placeholder key to glyph.
pub struct IconRegistry {
    entries: Vec<(String, String)>,
}

impl IconRegistry {
    /// Every registry holds a valid table.
    #[verifier::type_invariant]
    spec fn valid(&self) -> bool {
        table_ok(pairs_view(self.entries@))
    }
}

impl View for IconRegistry {
    type V = Seq<(Seq<char>, Seq<char>)>;

    closed spec fn view(&self) -> Seq<(Seq<char>, Seq<char>)> {
        pairs_view(self.entries@)
    }
}

fn push_entry(v: &mut Vec<(String, String)>, k: &str, g: &str)
    ensures
        pairs_view(final(v)@) == pairs_view(old(v)@).push((k@, g@)),
{
    v.push((String::from_str(k), String::from_str(g)));
    assert(pairs_view(v@) =~= pairs_view(old(v)@).push((k@, g@)));
}

fn key_char(c: char) -> (b: bool)
    ensures
        b == is_key_char(c),
{
    ('a' <= c && c <= 'z') || ('A' <= c && c <= 'Z') || ('0' <= c && c <= '9') || c == '-'
        || c == '_'
}

fn key_ok(k: &String) -> (b: bool)
    ensures
        b == is_key(k@),
{
    let s = k.as_str();
    let n = s.unicode_len();
    if n == 0 {
        return false;
    }
    let mut i: usize = 0;
    while i < n
        invariant
            n == k@.len(),
            s@ == k@,
            i <= n,
            forall|j: int| 0 <= j < i ==> is_key_char(#[trigger] k@[j]),
        decreases n - i,
    {
        if !key_char(s.get_char(i)) {
            return false;
        }
        i = i + 1;
    }
    true
}

fn glyph_ok(g: &String) -> (b: bool)
    ensures
        b == no_open_brace(g@),
{
    let s = g.as_str();
    let n = s.unicode_len();
    let mut i: usize = 0;
    while i < n
        invariant
            n == g@.len(),
            s@ == g@,
            i <= n,
            forall|j: int| 0 <= j < i ==> #[trigger] g@[j] != '{',
        decreases n - i,
    {
        if s.get_char(i) == '{' {
            return false;
        }
        i = i + 1;
    }
    true
}

fn check_table(v: &Vec<(String, String)>) -> (b: bool)
    ensures
        b == table_ok(pairs_view(v@)),
{
    let ghost es = pairs_view(v@);
    let n = v.len();
    let mut i: usize = 0;
    while i < n
        invariant
            n == v@.len(),
            es == pairs_view(v@),
            es.len() == n,
            i <= n,
            forall|a: int| 0 <= a < i ==> is_key(#[trigger] es[a].0),
            forall|a: int| 0 <= a < i ==> no_open_brace(#[trigger] es[a].1),
            forall|a: int, b: int|
                0 <= a < i && 0 <= b < n && a != b ==> #[trigger] es[a].0 != #[trigger] es[b].0,
        decreases n - i,
    {
        if !key_ok(&v[i].0) || !glyph_ok(&v[i].1) {
            assert(es[i as int] == (v@[i as int].0@, v@[i as int].1@));
            assert(!is_key(es[i as int].0) || !no_open_brace(es[i as int].1));
            return false;
        }
        let mut j: usize = 0;
        while j < n
            invariant
                n == v@.len(),
                es == pairs_view(v@),
                es.len() == n,
                i < n,
                j <= n,
                forall|b: int| 0 <= b < j && b != i ==> es[i as int].0 != #[trigger] es[b].0,
            decreases n - j,
        {
            if j != i && v[i].0 == v[j].0 {
                assert(es[i as int] == (v@[i as int].0@, v@[i as int].1@));
                assert(es[j as int] == (v@[j as int].0@, v@[j as int].1@));
                assert(es[i as int].0 == es[j as int].0);
                return false;
            }
            j = j + 1;
        }
        i = i + 1;
    }
    true
}

pub(crate) fn bracket(k: &String) -> (r: String)
    ensures
        r@ == bracketed(k@),
{
    proof {
        reveal_strlit("{");
        reveal_strlit("}");
    }
    let mut r = String::from_str("{");
    r.append(k.as_str());
    r.append("}");
    assert(r@ =~= bracketed(k@));
    r
}

proof fn lemma_key_brace_free(k: Seq<char>)
    requires
        is_key(k),
    ensures
        brace_free(k),
{
    assert forall|i: int| 0 <= i < k.len() implies #[trigger] k[i] != '{' && k[i] != '}' by {
        assert(is_key_char(k[i]));
    }
}

/// The token of one brace-free key does not stand inside the token of another.
proof fn lemma_token_not_in_token(k: Seq<char>, u: Seq<char>)
    requires
        brace_free(k),
        brace_free(u),
        k != u,
    ensures
        !occurs(bracketed(u), bracketed(k)),
{
    let bk = bracketed(k);
    let bu = bracketed(u);
    if occurs(bu, bk) {
        let i = choose|i: int| occurs_at(bu, bk, i);
        assert(bu.subrange(i, i + bk.len())[0] == bk[0]);
        if i > 0 {
            if i <= u.len() {
                assert(bu[i] == u[i - 1]);
            }
            assert(false);
        }
        let m = k.len() as int;
        if m < u.len() {
            assert(bu.subrange(0, bk.len() as int)[m + 1] == bk[m + 1]);
            assert(bu[m + 1] == u[m]);
            assert(false);
        } else {
            assert forall|x: int| 0 <= x < m implies k[x] == u[x] by {
                assert(bu.subrange(0, bk.len() as int)[x + 1] == bk[x + 1]);
            }
            assert(k =~= u);
        }
    }
}

/// A token cannot stand in text that opens no brace.
proof fn lemma_token_not_in_glyph(k: Seq<char>, g: Seq<char>)
    requires
        no_open_brace(g),
    ensures
        !occurs(g, bracketed(k)),
{
    if occurs(g, bracketed(k)) {
        let i = choose|i: int| occurs_at(g, bracketed(k), i);
        assert(g.subrange(i, i + bracketed(k).len())[0] == bracketed(k)[0]);
        assert(g[i] == '{');
    }
}

proof fn lemma_table_prefix(es: Seq<(Seq<char>, Seq<char>)>, m: int)
    requires
        table_ok(es),
        0 <= m <= es.len(),
    ensures
        table_ok(es.take(m)),
{
    let t = es.take(m);
    assert forall|i: int| 0 <= i < t.len() implies is_key(#[trigger] t[i].0) by {
        assert(t[i] == es[i]);
    }
    assert forall|i: int| 0 <= i < t.len() implies no_open_brace(#[trigger] t[i].1) by {
        assert(t[i] == es[i]);
    }
    assert forall|i: int, j: int|
        0 <= i < t.len() && 0 <= j < t.len() && i != j implies #[trigger] t[i].0 != #[trigger] t[j].0 by {
        assert(t[i] == es[i]);
        assert(t[j] == es[j]);
    }
}

/// Text without any placeholder token is left as it is by every valid table.
pub proof fn lemma_no_placeholder_unchanged(s: Seq<char>, es: Seq<(Seq<char>, Seq<char>)>)
    requires
        table_ok(es),
        !has_placeholder(s),
    ensures
        substituted_by(s, es) == s,
    decreases es.len(),
{
    if es.len() > 0 {
        let d = es.drop_last();
        assert(d =~= es.take(es.len() - 1));
        lemma_table_prefix(es, es.len() - 1);
        lemma_no_placeholder_unchanged(s, d);
        let k = es.last().0;
        assert(is_key(es[es.len() - 1].0));
        let bk = bracketed(k);
        if occurs(s, bk) {
            let i = choose|i: int| occurs_at(s, bk, i);
            let j = i + k.len() + 1;
            let w = s.subrange(i, i + bk.len());
            assert(w == bk);
            assert(w[0] == '{');
            assert(w[k.len() as int + 1] == '}');
            assert(s.subrange(i + 1, j) =~= k) by {
                assert forall|x: int| 0 <= x < k.len() implies s.subrange(i + 1, j)[x] == k[x] by {
                    assert(w[x + 1] == bk[x + 1]);
                }
            }
            assert(s[i] == '{' && s[j] == '}');
            assert(has_placeholder(s));
        }
        lemma_replaced_absent(s, bk, es.last().1);
    }
}

proof fn lemma_key_prefix(es: Seq<(Seq<char>, Seq<char>)>, i: int, m: int)
    requires
        table_ok(es),
        0 <= i < es.len(),
        0 <= m <= es.len(),
    ensures
        m <= i ==> substituted_by(bracketed(es[i].0), es.take(m)) == bracketed(es[i].0),
        m > i ==> substituted_by(bracketed(es[i].0), es.take(m)) == es[i].1,
    decreases m,
{
    let k = es[i].0;
    let g = es[i].1;
    let t = es.take(m);
    if m == 0 {
    } else {
        assert(t.drop_last() =~= es.take(m - 1));
        assert(t.last() == es[m - 1]);
        lemma_key_prefix(es, i, m - 1);
        let km = es[m - 1].0;
        assert(is_key(km));
        assert(is_key(k));
        lemma_key_brace_free(km);
        lemma_key_brace_free(k);
        if m - 1 < i {
            lemma_token_not_in_token(km, k);
            lemma_replaced_absent(bracketed(k), bracketed(km), es[m - 1].1);
        } else if m - 1 == i {
            lemma_replaced_whole(bracketed(k), g);
        } else {
            assert(no_open_brace(g));
            lemma_token_not_in_glyph(km, g);
            lemma_replaced_absent(g, bracketed(km), es[m - 1].1);
        }
    }
}

/// The token of a key of a valid table is replaced by that key's glyph.
pub proof fn lemma_key_token_becomes_glyph(es: Seq<(Seq<char>, Seq<char>)>, i: int)
    requires
        table_ok(es),
        0 <= i < es.len(),
    ensures
        substituted_by(bracketed(es[i].0), es) == es[i].1,
{
    lemma_key_prefix(es, i, es.len() as int);
    assert(es.take(es.len() as int) =~= es);
}

/// The token of a key that a valid table lacks is left verbatim.
pub proof fn lemma_unknown_token_unchanged(u: Seq<char>, es: Seq<(Seq<char>, Seq<char>)>)
    requires
        table_ok(es),
        brace_free(u),
        forall|i: int| 0 <= i < es.len() ==> #[trigger] es[i].0 != u,
    ensures
        substituted_by(bracketed(u), es) == bracketed(u),
    decreases es.len(),
{
    if es.len() > 0 {
        let d = es.drop_last();
        assert(d =~= es.take(es.len() - 1));
        lemma_table_prefix(es, es.len() - 1);
        assert forall|i: int| 0 <= i < d.len() implies #[trigger] d[i].0 != u by {
            assert(d[i] == es[i]);
        }
        lemma_unknown_token_unchanged(u, d);
        let k = es[es.len() - 1].0;
        assert(is_key(k));
        lemma_key_brace_free(k);
        lemma_token_not_in_token(k, u);
        lemma_replaced_absent(bracketed(u), bracketed(k), es.last().1);
    }
}

/// Listing and lookup agree: in a valid table, looking up each listed key
/// gives the glyph listed with it.
pub proof fn lemma_listed_key_looks_up(es: Seq<(Seq<char>, Seq<char>)>, i: int)
    requires
        table_ok(es),
        0 <= i < es.len(),
    ensures
        lookup_in(es, es[i].0) == Some(es[i].1),
    decreases i,
{
    if i > 0 {
        let d = es.drop_first();
        assert(es[0].0 != es[i].0);
        assert(table_ok(d)) by {
            assert forall|a: int| 0 <= a < d.len() implies is_key(#[trigger] d[a].0) by {
                assert(d[a] == es[a + 1]);
            }
            assert forall|a: int| 0 <= a < d.len() implies no_open_brace(#[trigger] d[a].1) by {
                assert(d[a] == es[a + 1]);
            }
            assert forall|a: int, b: int|
                0 <= a < d.len() && 0 <= b < d.len() && a != b implies #[trigger] d[a].0
                != #[trigger] d[b].0 by {
                assert(d[a] == es[a + 1]);
                assert(d[b] == es[b + 1]);
            }
        }
        lemma_listed_key_looks_up(d, i - 1);
        assert(d[i - 1] == es[i]);
    }
}

impl IconRegistry {
    /// The table is valid, as every registry's is.
    pub(crate) fn valid_table(&self)
        ensures
            table_ok(self@),
    {
        proof {
            use_type_invariant(&*self);
        }
    }

    /// The built-in table of Nerd Font glyphs.
    #[verifier::rlimit(100)]
    pub fn standard() -> (r: IconRegistry)
        ensures
            r@ == standard_table(),
    {
        let mut v: Vec<(String, String)> = Vec::new();
        assert(pairs_view(v@) =~= Seq::empty());
        push_entry(&mut v, "folder", "\u{f07b}");
        push_entry(&mut v, "file", "\u{f15b}");
        push_entry(&mut v, "doc", "\u{f718}");
        push_entry(&mut v, "img", "\u{f71e}");
        push_entry(&mut v, "pdf", "\u{f724}");
        push_entry(&mut v, "zip", "\u{f1c6}");
        push_entry(&mut v, "ok", "\u{f00c}");
        push_entry(&mut v, "check", "\u{f00c}");
        push_entry(&mut v, "success", "\u{f00c}");
        push_entry(&mut v, "error", "\u{f057}");
        push_entry(&mut v, "fail", "\u{f057}");
        push_entry(&mut v, "warning", "\u{f071}");
        push_entry(&mut v, "warn", "\u{f071}");
        push_entry(&mut v, "info", "\u{f05a}");
        push_entry(&mut v, "question", "\u{f128}");
        push_entry(&mut v, "help", "\u{f059}");
        push_entry(&mut v, "arrow", "\u{f054}");
        push_entry(&mut v, "arrow-right", "\u{f054}");
        push_entry(&mut v, "arrow-left", "\u{f053}");
        push_entry(&mut v, "arrow-up", "\u{f077}");
        push_entry(&mut v, "arrow-down", "\u{f078}");
        push_entry(&mut v, "gear", "\u{f013}");
        push_entry(&mut v, "settings", "\u{f013}");
        push_entry(&mut v, "home", "\u{f015}");
        push_entry(&mut v, "star", "\u{f005}");
        push_entry(&mut v, "heart", "\u{f004}");
        push_entry(&mut v, "trash", "\u{f1f8}");
        push_entry(&mut v, "edit", "\u{f040}");
        push_entry(&mut v, "add", "\u{f055}");
        push_entry(&mut v, "plus", "\u{f055}");
        push_entry(&mut v, "minus", "\u{f056}");
        push_entry(&mut v, "close", "\u{f00d}");
        push_entry(&mut v, "search", "\u{f002}");
        push_entry(&mut v, "git", "\u{f1d3}");
        push_entry(&mut v, "branch", "\u{e725}");
        push_entry(&mut v, "commit", "\u{e729}");
        push_entry(&mut v, "merge", "\u{e727}");
        push_entry(&mut v, "rust", "\u{e7a8}");
        push_entry(&mut v, "python", "\u{e235}");
        push_entry(&mut v, "js", "\u{e781}");
        push_entry(&mut v, "ts", "\u{e628}");
        push_entry(&mut v, "java", "\u{e738}");
        push_entry(&mut v, "go", "\u{e627}");
        push_entry(&mut v, "c", "\u{e61e}");
        push_entry(&mut v, "cpp", "\u{e61d}");
        push_entry(&mut v, "linux", "\u{f17c}");
        push_entry(&mut v, "apple", "\u{f179}");
        push_entry(&mut v, "windows", "\u{f17a}");
        push_entry(&mut v, "play", "\u{f04b}");
        push_entry(&mut v, "pause", "\u{f04c}");
        push_entry(&mut v, "stop", "\u{f04d}");
        push_entry(&mut v, "volume", "\u{f028}");
        push_entry(&mut v, "mute", "\u{f026}");
        push_entry(&mut v, "wifi", "\u{f1eb}");
        push_entry(&mut v, "network", "\u{f502}");
        push_entry(&mut v, "cloud", "\u{f0c2}");
        push_entry(&mut v, "download", "\u{f019}");
        push_entry(&mut v, "upload", "\u{f093}");
        push_entry(&mut v, "clock", "\u{f017}");
        push_entry(&mut v, "calendar", "\u{f073}");
        push_entry(&mut v, "time", "\u{f017}");
        push_entry(&mut v, "user", "\u{f007}");
        push_entry(&mut v, "users", "\u{f0c0}");
        push_entry(&mut v, "lock", "\u{f023}");
        push_entry(&mut v, "unlock", "\u{f09c}");
        push_entry(&mut v, "demo", "\u{f0c3}");
        proof {
            lemma_standard_table_ok();
        }
        IconRegistry { entries: v }
    }

    /// A registry over the given entries, in their order, where they form a
    /// valid table; `None` where they do not.
    pub fn from_entries(entries: Vec<(String, String)>) -> (r: Option<IconRegistry>)
        ensures
            r is Some <==> table_ok(pairs_view(entries@)),
            r matches Some(reg) ==> reg@ == pairs_view(entries@),
    {
        if check_table(&entries) {
            Some(IconRegistry { entries })
        } else {
            None
        }
    }

    /// The glyph of `key`, matched exactly; `None` for a key the table lacks.
    pub fn lookup(&self, key: &str) -> (r: Option<String>)
        ensures
            match r {
                Some(g) => lookup_in(self@, key@) == Some(g@),
                None => lookup_in(self@, key@) is None,
            },
    {
        let k = String::from_str(key);
        let n = self.entries.len();
        let mut i: usize = 0;
        assert(self@.subrange(0, n as int) =~= self@);
        while i < n
            invariant
                n == self.entries@.len(),
                n == self@.len(),
                k@ == key@,
                i <= n,
                lookup_in(self@, key@) == lookup_in(self@.subrange(i as int, n as int), key@),
            decreases n - i,
        {
            let ghost rest = self@.subrange(i as int, n as int);
            assert(rest[0] == (self.entries@[i as int].0@, self.entries@[i as int].1@));
            if self.entries[i].0 == k {
                return Some(self.entries[i].1.clone());
            }
            assert(rest.drop_first() =~= self@.subrange(i + 1, n as int));
            i = i + 1;
        }
        None
    }

    /// Whether the table has an entry for `key`.
    pub fn contains(&self, key: &str) -> (b: bool)
        ensures
            b == lookup_in(self@, key@) is Some,
    {
        self.lookup(key).is_some()
    }

    /// Every entry, in table order.
    pub fn list(&self) -> (r: Vec<(String, String)>)
        ensures
            pairs_view(r@) == self@,
            table_ok(pairs_view(r@)),
    {
        proof {
            use_type_invariant(&*self);
        }
        let mut out: Vec<(String, String)> = Vec::new();
        let n = self.entries.len();
        let mut i: usize = 0;
        while i < n
            invariant
                n == self.entries@.len(),
                i <= n,
                out@.len() == i,
                forall|j: int|
                    0 <= j < i ==> (#[trigger] out@[j]).0@ == self.entries@[j].0@ && out@[j].1@
                        == self.entries@[j].1@,
            decreases n - i,
        {
            let e = (self.entries[i].0.clone(), self.entries[i].1.clone());
            out.push(e);
            i = i + 1;
        }
        assert(pairs_view(out@) =~= self@);
        out
    }

    /// `message` with each entry's token `{key}` replaced, everywhere it
    /// occurs, by the entry's glyph; the entries are taken in table order.
    pub fn substitute(&self, message: &str) -> (r: String)
        ensures
            r@ == substituted_by(message@, self@),
    {
        let mut out = String::from_str(message);
        let n = self.entries.len();
        let mut i: usize = 0;
        assert(self@.take(0) =~= Seq::empty());
        while i < n
            invariant
                n == self.entries@.len(),
                n == self@.len(),
                i <= n,
                out@ == substituted_by(message@, self@.take(i as int)),
            decreases n - i,
        {
            let pattern = bracket(&self.entries[i].0);
            out = replace_all(out.as_str(), pattern.as_str(), self.entries[i].1.as_str());
            proof {
                let t = self@.take(i + 1);
                assert(t.drop_last() =~= self@.take(i as int));
                assert(t.last() == (self.entries@[i as int].0@, self.entries@[i as int].1@));
            }
            i = i + 1;
        }
        assert(self@.take(n as int) =~= self@);
        out
    }
}

} // verus!
