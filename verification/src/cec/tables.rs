//! The key and opcode tables in sorted form, and what holds of the name tables as a whole.

use crate::cec::types::{
    key_code, key_index_from, key_text, key_text_from, opcode_text, opcode_text_from, Keycode,
    KEY_NAMES, OPCODE_NAMES,
};
use crate::text;
use vstd::prelude::*;

verus! {

// ---------------------------------------------------------------------------
// Order
// ---------------------------------------------------------------------------

/// Dictionary order by character.
pub open spec fn text_le(a: Seq<char>, b: Seq<char>) -> bool
    decreases a.len(),
{
    if a.len() == 0 {
        true
    } else if b.len() == 0 {
        false
    } else if a[0] == b[0] {
        text_le(a.skip(1), b.skip(1))
    } else {
        a[0] < b[0]
    }
}

/// Table order: by code, then by name.
pub open spec fn entry_le(a: (Seq<char>, u8), b: (Seq<char>, u8)) -> bool {
    a.1 < b.1 || (a.1 == b.1 && text_le(a.0, b.0))
}

/// A table in table order.
pub open spec fn table_sorted(t: Seq<(Seq<char>, u8)>) -> bool {
    forall|i: int, j: int| 0 <= i < j < t.len() ==> #[trigger] entry_le(t[i], t[j])
}

/// What a table of names and codes holds.
pub open spec fn table_view(t: Seq<(String, u8)>) -> Seq<(Seq<char>, u8)> {
    t.map_values(|e: (String, u8)| (e.0@, e.1))
}

proof fn lemma_text_le_total(a: Seq<char>, b: Seq<char>)
    ensures
        text_le(a, b) || text_le(b, a),
    decreases a.len(),
{
    if a.len() > 0 && b.len() > 0 && a[0] == b[0] {
        lemma_text_le_total(a.skip(1), b.skip(1));
    }
}

proof fn lemma_text_le_trans(a: Seq<char>, b: Seq<char>, c: Seq<char>)
    requires
        text_le(a, b),
        text_le(b, c),
    ensures
        text_le(a, c),
    decreases a.len(),
{
    if a.len() > 0 && b.len() > 0 && c.len() > 0 && a[0] == b[0] && b[0] == c[0] {
        lemma_text_le_trans(a.skip(1), b.skip(1), c.skip(1));
    }
}

proof fn lemma_entry_le_total(a: (Seq<char>, u8), b: (Seq<char>, u8))
    ensures
        entry_le(a, b) || entry_le(b, a),
{
    lemma_text_le_total(a.0, b.0);
}

proof fn lemma_entry_le_trans(a: (Seq<char>, u8), b: (Seq<char>, u8), c: (Seq<char>, u8))
    requires
        entry_le(a, b),
        entry_le(b, c),
    ensures
        entry_le(a, c),
{
    if a.1 == b.1 && b.1 == c.1 {
        lemma_text_le_trans(a.0, b.0, c.0);
    }
}

fn text_at_most(a: &str, b: &str) -> (r: bool)
    ensures
        r == text_le(a@, b@),
{
    let x = text::chars_of(a);
    let y = text::chars_of(b);
    let mut i: usize = 0;
    assert(x@.skip(0) =~= x@);
    assert(y@.skip(0) =~= y@);
    while i < x.len() && i < y.len()
        invariant
            i <= x@.len(),
            i <= y@.len(),
            x@ == a@,
            y@ == b@,
            text_le(a@, b@) == text_le(x@.skip(i as int), y@.skip(i as int)),
        decreases x@.len() - i,
    {
        if x[i] != y[i] {
            return x[i] < y[i];
        }
        assert(x@.skip(i as int).skip(1) =~= x@.skip(i as int + 1));
        assert(y@.skip(i as int).skip(1) =~= y@.skip(i as int + 1));
        i += 1;
    }
    i == x.len()
}

fn entry_at_most(a: &(String, u8), b: &(String, u8)) -> (r: bool)
    ensures
        r == entry_le((a.0@, a.1), (b.0@, b.1)),
{
    a.1 < b.1 || (a.1 == b.1 && text_at_most(a.0.as_str(), b.0.as_str()))
}

/// Inserts an entry into a sorted table so that it stays sorted.
fn insert_sorted(t: &mut Vec<(String, u8)>, name: &str, code: u8)
    requires
        table_sorted(table_view(old(t)@)),
    ensures
        table_sorted(table_view(final(t)@)),
        table_view(final(t)@).to_multiset() == table_view(old(t)@).to_multiset().insert(
            (name@, code),
        ),
        final(t)@.len() == old(t)@.len() + 1,
{
    let e = (name.to_owned(), code);
    let ghost tv = table_view(t@);
    let ghost ev = (name@, code);
    let mut k: usize = 0;
    while k < t.len() && entry_at_most(&t[k], &e)
        invariant
            k <= t@.len(),
            tv == table_view(t@),
            ev == (e.0@, e.1),
            t@ == old(t)@,
            forall|j: int| 0 <= j < k ==> entry_le(#[trigger] tv[j], ev),
        decreases t@.len() - k,
    {
        assert(tv[k as int] == (t@[k as int].0@, t@[k as int].1));
        k += 1;
    }
    proof {
        if k < t.len() {
            assert(tv[k as int] == (t@[k as int].0@, t@[k as int].1));
            lemma_entry_le_total(tv[k as int], ev);
        }
        assert forall|j: int| k <= j < tv.len() implies entry_le(ev, #[trigger] tv[j]) by {
            if j > k {
                assert(entry_le(tv[k as int], tv[j]));
                lemma_entry_le_trans(ev, tv[k as int], tv[j]);
            }
        }
    }
    t.insert(k, e);
    proof {
        let nv = table_view(t@);
        assert(nv =~= tv.insert(k as int, ev));
        assert forall|i: int, j: int| 0 <= i < j < nv.len() implies #[trigger] entry_le(
            nv[i],
            nv[j],
        ) by {
            let a = if i < k { i } else { i - 1 };
            let b = if j < k { j } else { j - 1 };
            if i != k && j != k {
                assert(nv[i] == tv[a]);
                assert(nv[j] == tv[b]);
                assert(entry_le(tv[a], tv[b]));
            } else if i == k {
                assert(nv[j] == tv[j - 1]);
            } else {
                assert(nv[i] == tv[i]);
            }
        }
        assert(nv.remove(k as int) =~= tv);
        vstd::seq_lib::to_multiset_remove(nv, k as int);
        assert(nv[k as int] == ev);
        nv.to_multiset_ensures();
        assert(nv.contains(ev));
        assert(nv.to_multiset() =~= tv.to_multiset().insert(ev));
    }
}

// ---------------------------------------------------------------------------
// Sorted tables
// ---------------------------------------------------------------------------

/// The entries of [`KEY_NAMES`].
pub open spec fn key_entries() -> Seq<(Seq<char>, u8)> {
    Seq::new(KEY_NAMES@.len(), |i: int| (KEY_NAMES@[i].0@, KEY_NAMES@[i].1))
}

/// The entries of [`OPCODE_NAMES`].
pub open spec fn opcode_entries() -> Seq<(Seq<char>, u8)> {
    Seq::new(OPCODE_NAMES@.len(), |i: int| (OPCODE_NAMES@[i].1@, OPCODE_NAMES@[i].0))
}

/// Every key name that [`keycode_from_name`](crate::cec::types::keycode_from_name) accepts
/// (aliases too), sorted by keycode and then by name.
pub fn keycode_names() -> (r: Vec<(String, u8)>)
    ensures
        table_view(r@).to_multiset() == key_entries().to_multiset(),
        table_sorted(table_view(r@)),
        r@.len() == 59,
{
    let mut out: Vec<(String, u8)> = Vec::new();
    let mut i: usize = 0;
    proof {
        assert(key_entries().take(0) =~= table_view(out@));
    }
    while i < 59
        invariant
            i <= 59 == KEY_NAMES@.len(),
            out@.len() == i,
            table_sorted(table_view(out@)),
            table_view(out@).to_multiset() == key_entries().take(i as int).to_multiset(),
        decreases 59 - i,
    {
        let e = KEY_NAMES[i];
        insert_sorted(&mut out, e.0, e.1);
        proof {
            assert(key_entries().take(i as int + 1) =~= key_entries().take(i as int).push(
                key_entries()[i as int],
            ));
            vstd::seq_lib::to_multiset_build(key_entries().take(i as int), key_entries()[i as int]);
        }
        i += 1;
    }
    assert(key_entries().take(59) =~= key_entries());
    out
}

/// The named opcodes, sorted by opcode.
pub fn opcode_table() -> (r: Vec<(String, u8)>)
    ensures
        table_view(r@).to_multiset() == opcode_entries().to_multiset(),
        table_sorted(table_view(r@)),
        r@.len() == 18,
{
    let mut out: Vec<(String, u8)> = Vec::new();
    let mut i: usize = 0;
    proof {
        assert(opcode_entries().take(0) =~= table_view(out@));
    }
    while i < 18
        invariant
            i <= 18 == OPCODE_NAMES@.len(),
            out@.len() == i,
            table_sorted(table_view(out@)),
            table_view(out@).to_multiset() == opcode_entries().take(i as int).to_multiset(),
        decreases 18 - i,
    {
        let e = OPCODE_NAMES[i];
        insert_sorted(&mut out, e.1, e.0);
        proof {
            assert(opcode_entries().take(i as int + 1) =~= opcode_entries().take(i as int).push(
                opcode_entries()[i as int],
            ));
            vstd::seq_lib::to_multiset_build(
                opcode_entries().take(i as int),
                opcode_entries()[i as int],
            );
        }
        i += 1;
    }
    assert(opcode_entries().take(18) =~= opcode_entries());
    out
}

// ---------------------------------------------------------------------------
// What holds of the tables
// ---------------------------------------------------------------------------

/// A number that tells the key names apart, read off their length and three of their characters.
spec fn key_mark(s: Seq<char>) -> int {
    s.len() * 1000000 + s[0] as int + s[s.len() as int / 2] as int * 11 + s.last() as int * 1000
}

/// The position of a key name in the table, by its mark.
spec fn key_rank(s: Seq<char>) -> int {
    let m = key_mark(s);
    if m == 6117226 {
        0
    } else if m == 2113349 {
        1
    } else if m == 4111409 {
        2
    } else if m == 4117230 {
        3
    } else if m == 5117247 {
        4
    } else if m == 8113390 {
        5
    } else if m == 10111159 {
        6
    } else if m == 7113384 {
        7
    } else if m == 9111153 {
        8
    } else if m == 9118159 {
        9
    } else if m == 4102303 {
        10
    } else if m == 10118160 {
        11
    } else if m == 4118319 {
        12
    } else if m == 13118375 {
        13
    } else if m == 13118378 {
        14
    } else if m == 4117256 {
        15
    } else if m == 4108187 {
        16
    } else if m == 5115377 {
        17
    } else if m == 5115210 {
        18
    } else if m == 1048576 {
        19
    } else if m == 1049588 {
        20
    } else if m == 1050600 {
        21
    } else if m == 1051612 {
        22
    } else if m == 1052624 {
        23
    } else if m == 1053636 {
        24
    } else if m == 1054648 {
        25
    } else if m == 1055660 {
        26
    } else if m == 1056672 {
        27
    } else if m == 1057684 {
        28
    } else if m == 3117321 {
        29
    } else if m == 10113210 {
        30
    } else if m == 12111287 {
        31
    } else if m == 16109157 {
        32
    } else if m == 12117380 {
        33
    } else if m == 12117370 {
        34
    } else if m == 19111310 {
        35
    } else if m == 4113292 {
        36
    } else if m == 7113223 {
        37
    } else if m == 9111157 {
        38
    } else if m == 5115421 {
        39
    } else if m == 9113317 {
        40
    } else if m == 11111229 {
        41
    } else if m == 4102385 {
        42
    } else if m == 4122179 {
        43
    } else if m == 4113336 {
        44
    } else if m == 5102399 {
        45
    } else if m == 6101335 {
        46
    } else if m == 6101269 {
        47
    } else if m == 12101323 {
        48
    } else if m == 5117212 {
        49
    } else if m == 7101411 {
        50
    } else if m == 8101407 {
        51
    } else if m == 5102230 {
        52
    } else if m == 10102204 {
        53
    } else if m == 7102180 {
        54
    } else if m == 6101356 {
        55
    } else if m == 8111356 {
        56
    } else if m == 9120213 {
        57
    } else if m == 2053685 {
        58
    } else {
        59
    }
}

proof fn lemma_key_ranks_0(i: int)
    requires
        0 <= i < 10,
    ensures
        key_rank(KEY_NAMES@[i].0@) == i,
{
    if i == 0 {
        reveal_strlit("select");
        assert(KEY_NAMES@[0].0@ == "select"@);
    } else if i == 1 {
        reveal_strlit("up");
        assert(KEY_NAMES@[1].0@ == "up"@);
    } else if i == 2 {
        reveal_strlit("down");
        assert(KEY_NAMES@[2].0@ == "down"@);
    } else if i == 3 {
        reveal_strlit("left");
        assert(KEY_NAMES@[3].0@ == "left"@);
    } else if i == 4 {
        reveal_strlit("right");
        assert(KEY_NAMES@[4].0@ == "right"@);
    } else if i == 5 {
        reveal_strlit("right_up");
        assert(KEY_NAMES@[5].0@ == "right_up"@);
    } else if i == 6 {
        reveal_strlit("right_down");
        assert(KEY_NAMES@[6].0@ == "right_down"@);
    } else if i == 7 {
        reveal_strlit("left_up");
        assert(KEY_NAMES@[7].0@ == "left_up"@);
    } else if i == 8 {
        reveal_strlit("left_down");
        assert(KEY_NAMES@[8].0@ == "left_down"@);
    } else if i == 9 {
        reveal_strlit("root_menu");
        assert(KEY_NAMES@[9].0@ == "root_menu"@);
    }
}

proof fn lemma_key_ranks_10(i: int)
    requires
        10 <= i < 20,
    ensures
        key_rank(KEY_NAMES@[i].0@) == i,
{
    if i == 10 {
        reveal_strlit("home");
        assert(KEY_NAMES@[10].0@ == "home"@);
    } else if i == 11 {
        reveal_strlit("setup_menu");
        assert(KEY_NAMES@[11].0@ == "setup_menu"@);
    } else if i == 12 {
        reveal_strlit("menu");
        assert(KEY_NAMES@[12].0@ == "menu"@);
    } else if i == 13 {
        reveal_strlit("contents_menu");
        assert(KEY_NAMES@[13].0@ == "contents_menu"@);
    } else if i == 14 {
        reveal_strlit("favorite_menu");
        assert(KEY_NAMES@[14].0@ == "favorite_menu"@);
    } else if i == 15 {
        reveal_strlit("exit");
        assert(KEY_NAMES@[15].0@ == "exit"@);
    } else if i == 16 {
        reveal_strlit("back");
        assert(KEY_NAMES@[16].0@ == "back"@);
    } else if i == 17 {
        reveal_strlit("enter");
        assert(KEY_NAMES@[17].0@ == "enter"@);
    } else if i == 18 {
        reveal_strlit("clear");
        assert(KEY_NAMES@[18].0@ == "clear"@);
    } else if i == 19 {
        reveal_strlit("0");
        assert(KEY_NAMES@[19].0@ == "0"@);
    }
}

proof fn lemma_key_ranks_20(i: int)
    requires
        20 <= i < 30,
    ensures
        key_rank(KEY_NAMES@[i].0@) == i,
{
    if i == 20 {
        reveal_strlit("1");
        assert(KEY_NAMES@[20].0@ == "1"@);
    } else if i == 21 {
        reveal_strlit("2");
        assert(KEY_NAMES@[21].0@ == "2"@);
    } else if i == 22 {
        reveal_strlit("3");
        assert(KEY_NAMES@[22].0@ == "3"@);
    } else if i == 23 {
        reveal_strlit("4");
        assert(KEY_NAMES@[23].0@ == "4"@);
    } else if i == 24 {
        reveal_strlit("5");
        assert(KEY_NAMES@[24].0@ == "5"@);
    } else if i == 25 {
        reveal_strlit("6");
        assert(KEY_NAMES@[25].0@ == "6"@);
    } else if i == 26 {
        reveal_strlit("7");
        assert(KEY_NAMES@[26].0@ == "7"@);
    } else if i == 27 {
        reveal_strlit("8");
        assert(KEY_NAMES@[27].0@ == "8"@);
    } else if i == 28 {
        reveal_strlit("9");
        assert(KEY_NAMES@[28].0@ == "9"@);
    } else if i == 29 {
        reveal_strlit("dot");
        assert(KEY_NAMES@[29].0@ == "dot"@);
    }
}

proof fn lemma_key_ranks_30(i: int)
    requires
        30 <= i < 40,
    ensures
        key_rank(KEY_NAMES@[i].0@) == i,
{
    if i == 30 {
        reveal_strlit("channel_up");
        assert(KEY_NAMES@[30].0@ == "channel_up"@);
    } else if i == 31 {
        reveal_strlit("channel_down");
        assert(KEY_NAMES@[31].0@ == "channel_down"@);
    } else if i == 32 {
        reveal_strlit("previous_channel");
        assert(KEY_NAMES@[32].0@ == "previous_channel"@);
    } else if i == 33 {
        reveal_strlit("sound_select");
        assert(KEY_NAMES@[33].0@ == "sound_select"@);
    } else if i == 34 {
        reveal_strlit("input_select");
        assert(KEY_NAMES@[34].0@ == "input_select"@);
    } else if i == 35 {
        reveal_strlit("display_information");
        assert(KEY_NAMES@[35].0@ == "display_information"@);
    } else if i == 36 {
        reveal_strlit("help");
        assert(KEY_NAMES@[36].0@ == "help"@);
    } else if i == 37 {
        reveal_strlit("page_up");
        assert(KEY_NAMES@[37].0@ == "page_up"@);
    } else if i == 38 {
        reveal_strlit("page_down");
        assert(KEY_NAMES@[38].0@ == "page_down"@);
    } else if i == 39 {
        reveal_strlit("power");
        assert(KEY_NAMES@[39].0@ == "power"@);
    }
}

proof fn lemma_key_ranks_40(i: int)
    requires
        40 <= i < 50,
    ensures
        key_rank(KEY_NAMES@[i].0@) == i,
{
    if i == 40 {
        reveal_strlit("volume_up");
        assert(KEY_NAMES@[40].0@ == "volume_up"@);
    } else if i == 41 {
        reveal_strlit("volume_down");
        assert(KEY_NAMES@[41].0@ == "volume_down"@);
    } else if i == 42 {
        reveal_strlit("mute");
        assert(KEY_NAMES@[42].0@ == "mute"@);
    } else if i == 43 {
        reveal_strlit("play");
        assert(KEY_NAMES@[43].0@ == "play"@);
    } else if i == 44 {
        reveal_strlit("stop");
        assert(KEY_NAMES@[44].0@ == "stop"@);
    } else if i == 45 {
        reveal_strlit("pause");
        assert(KEY_NAMES@[45].0@ == "pause"@);
    } else if i == 46 {
        reveal_strlit("record");
        assert(KEY_NAMES@[46].0@ == "record"@);
    } else if i == 47 {
        reveal_strlit("rewind");
        assert(KEY_NAMES@[47].0@ == "rewind"@);
    } else if i == 48 {
        reveal_strlit("fast_forward");
        assert(KEY_NAMES@[48].0@ == "fast_forward"@);
    } else if i == 49 {
        reveal_strlit("eject");
        assert(KEY_NAMES@[49].0@ == "eject"@);
    }
}

proof fn lemma_key_ranks_50(i: int)
    requires
        50 <= i < 59,
    ensures
        key_rank(KEY_NAMES@[i].0@) == i,
{
    if i == 50 {
        reveal_strlit("forward");
        assert(KEY_NAMES@[50].0@ == "forward"@);
    } else if i == 51 {
        reveal_strlit("backward");
        assert(KEY_NAMES@[51].0@ == "backward"@);
    } else if i == 52 {
        reveal_strlit("angle");
        assert(KEY_NAMES@[52].0@ == "angle"@);
    } else if i == 53 {
        reveal_strlit("subpicture");
        assert(KEY_NAMES@[53].0@ == "subpicture"@);
    } else if i == 54 {
        reveal_strlit("f1_blue");
        assert(KEY_NAMES@[54].0@ == "f1_blue"@);
    } else if i == 55 {
        reveal_strlit("f2_red");
        assert(KEY_NAMES@[55].0@ == "f2_red"@);
    } else if i == 56 {
        reveal_strlit("f3_green");
        assert(KEY_NAMES@[56].0@ == "f3_green"@);
    } else if i == 57 {
        reveal_strlit("f4_yellow");
        assert(KEY_NAMES@[57].0@ == "f4_yellow"@);
    } else if i == 58 {
        reveal_strlit("f5");
        assert(KEY_NAMES@[58].0@ == "f5"@);
    }
}

proof fn lemma_key_ranks(i: int)
    requires
        0 <= i < 59,
    ensures
        key_rank(KEY_NAMES@[i].0@) == i,
{
    if i < 10 {
        lemma_key_ranks_0(i);
    } else if i < 20 {
        lemma_key_ranks_10(i);
    } else if i < 30 {
        lemma_key_ranks_20(i);
    } else if i < 40 {
        lemma_key_ranks_30(i);
    } else if i < 50 {
        lemma_key_ranks_40(i);
    } else if i < 59 {
        lemma_key_ranks_50(i);
    }
}

proof fn lemma_key_index(i: int, from: int)
    requires
        0 <= from <= i < 59,
    ensures
        key_index_from(KEY_NAMES@[i].0@, from) == Some(i),
    decreases i - from,
{
    if from < i {
        lemma_key_ranks(from);
        lemma_key_ranks(i);
        lemma_key_index(i, from + 1);
    }
}

/// Every name of the key table resolves to its own code: no name is listed twice.
pub proof fn law_key_names_resolve(i: int)
    requires
        0 <= i < KEY_NAMES@.len(),
    ensures
        key_code(KEY_NAMES@[i].0@) == Some(Keycode(KEY_NAMES@[i].1)),
{
    lemma_key_index(i, 0);
}

proof fn lemma_key_text(code: u8, from: int) -> (k: int)
    requires
        0 <= from <= KEY_NAMES@.len(),
        key_text_from(code, from) is Some,
    ensures
        from <= k < KEY_NAMES@.len(),
        KEY_NAMES@[k].1 == code,
        key_text_from(code, from) == Some(KEY_NAMES@[k].0@),
    decreases KEY_NAMES@.len() - from,
{
    if KEY_NAMES@[from].1 == code {
        from
    } else {
        lemma_key_text(code, from + 1)
    }
}

proof fn lemma_key_text_found(i: int, from: int)
    requires
        0 <= from <= i < KEY_NAMES@.len(),
    ensures
        key_text_from(KEY_NAMES@[i].1, from) is Some,
    decreases i - from,
{
    if from < i {
        lemma_key_text_found(i, from + 1);
    }
}

/// The canonical name of a keycode resolves back to the keycode.
pub proof fn law_canonical_name_round_trip(code: u8, name: Seq<char>)
    requires
        key_text(code) == Some(name),
    ensures
        key_code(name) == Some(Keycode(code)),
{
    let k = lemma_key_text(code, 0);
    law_key_names_resolve(k);
}

/// Whatever code a name resolves to has a canonical name.
pub proof fn law_resolved_code_has_name(name: Seq<char>)
    requires
        key_code(name) is Some,
    ensures
        key_code(name) matches Some(k) ==> key_text(k.0) is Some,
{
    lemma_key_index_in_range(name, 0);
    let i = key_index_from(name, 0)->0;
    lemma_key_text_found(i, 0);
}

proof fn lemma_key_index_in_range(name: Seq<char>, from: int)
    requires
        0 <= from <= KEY_NAMES@.len(),
    ensures
        key_index_from(name, from) matches Some(i) ==> from <= i < KEY_NAMES@.len()
            && KEY_NAMES@[i].0@ == name,
    decreases KEY_NAMES@.len() - from,
{
    if from < KEY_NAMES@.len() && KEY_NAMES@[from].0@ != name {
        lemma_key_index_in_range(name, from + 1);
    }
}

/// Every entry of the sorted key table resolves: its name gives its code.
pub proof fn law_listed_keys_resolve(t: Seq<(Seq<char>, u8)>, i: int)
    requires
        t.to_multiset() == key_entries().to_multiset(),
        0 <= i < t.len(),
    ensures
        key_code(t[i].0) == Some(Keycode(t[i].1)),
{
    t.to_multiset_ensures();
    key_entries().to_multiset_ensures();
    assert(t.contains(t[i]));
    assert(t.to_multiset().count(t[i]) > 0);
    assert(key_entries().contains(t[i]));
    let k = choose|k: int| 0 <= k < key_entries().len() && key_entries()[k] == t[i];
    law_key_names_resolve(k);
}

proof fn lemma_opcode_text(i: int, from: int)
    requires
        0 <= from <= i < 18,
    ensures
        opcode_text_from(OPCODE_NAMES@[i].0, from) == OPCODE_NAMES@[i].1@,
    decreases i - from,
{
    if from < i {
        lemma_opcode_text(i, from + 1);
    }
}

/// Every entry of the sorted opcode table names its opcode.
pub proof fn law_listed_opcodes_named(t: Seq<(Seq<char>, u8)>, i: int)
    requires
        t.to_multiset() == opcode_entries().to_multiset(),
        0 <= i < t.len(),
    ensures
        opcode_text(t[i].1) == t[i].0,
{
    t.to_multiset_ensures();
    opcode_entries().to_multiset_ensures();
    assert(t.contains(t[i]));
    assert(t.to_multiset().count(t[i]) > 0);
    assert(opcode_entries().contains(t[i]));
    let k = choose|k: int| 0 <= k < opcode_entries().len() && opcode_entries()[k] == t[i];
    lemma_opcode_text(k, 0);
}

/// No name stands twice in the key table.
pub proof fn lemma_key_names_differ(i: int, j: int)
    requires
        0 <= i < 59,
        0 <= j < 59,
        KEY_NAMES@[i].0@ == KEY_NAMES@[j].0@,
    ensures
        i == j,
{
    lemma_key_ranks(i);
    lemma_key_ranks(j);
}

/// The place of a key name in the key table.
pub proof fn lemma_key_place(name: Seq<char>) -> (i: int)
    requires
        key_code(name) is Some,
    ensures
        0 <= i < 59,
        KEY_NAMES@[i].0@ == name,
        key_code(name) == Some(Keycode(KEY_NAMES@[i].1)),
{
    lemma_key_index_in_range(name, 0);
    key_index_from(name, 0)->0
}

/// The names that navigation has as an action are no key names.
pub proof fn lemma_nav_names_are_no_keys(name: Seq<char>)
    requires
        name == "nav_up"@ || name == "nav_down"@ || name == "nav_left"@ || name == "nav_right"@,
    ensures
        key_code(name) is None,
{
    reveal_strlit("nav_up");
    reveal_strlit("nav_down");
    reveal_strlit("nav_left");
    reveal_strlit("nav_right");
    if key_code(name) is Some {
        let i = lemma_key_place(name);
        lemma_key_ranks(i);
        assert(key_rank(name) == 59);
    }
}

/// The order of a table is one: of two entries one comes first, two that both come first are the
/// same, and what comes before comes before all that follows.
pub proof fn law_tables_have_one_order(
    a: (Seq<char>, u8),
    b: (Seq<char>, u8),
    c: (Seq<char>, u8),
)
    ensures
        entry_le(a, b) || entry_le(b, a),
        entry_le(a, b) && entry_le(b, a) ==> a == b,
        entry_le(a, b) && entry_le(b, c) ==> entry_le(a, c),
        a.1 < b.1 ==> entry_le(a, b) && !entry_le(b, a),
{
    lemma_dictionary_order(a.0, b.0, c.0);
}

/// Texts are in the order of their first characters that differ, and a text comes before what
/// begins with it.
pub proof fn law_dictionary_order(p: Seq<char>, x: char, a: Seq<char>, y: char, b: Seq<char>)
    requires
        x < y,
    ensures
        text_le(p + (seq![x] + a), p + (seq![y] + b)),
        !text_le(p + (seq![y] + b), p + (seq![x] + a)),
        text_le(p, p + b),
    decreases p.len(),
{
    let s = p + (seq![x] + a);
    let t = p + (seq![y] + b);
    if p.len() == 0 {
        assert(s[0] == x && t[0] == y);
    } else {
        law_dictionary_order(p.skip(1), x, a, y, b);
        assert(s[0] == p[0] && t[0] == p[0] && (p + b)[0] == p[0]);
        assert(s.skip(1) =~= p.skip(1) + (seq![x] + a));
        assert(t.skip(1) =~= p.skip(1) + (seq![y] + b));
        assert((p + b).skip(1) =~= p.skip(1) + b);
    }
}

proof fn lemma_dictionary_order(a: Seq<char>, b: Seq<char>, c: Seq<char>)
    ensures
        text_le(a, b) || text_le(b, a),
        text_le(a, b) && text_le(b, a) ==> a == b,
        text_le(a, b) && text_le(b, c) ==> text_le(a, c),
    decreases a.len(),
{
    if a.len() == 0 {
        if b.len() == 0 {
            assert(a =~= b);
        }
    } else if b.len() > 0 {
        if c.len() > 0 {
            lemma_dictionary_order(a.skip(1), b.skip(1), c.skip(1));
        } else {
            lemma_dictionary_order(a.skip(1), b.skip(1), c);
        }
        if a[0] == b[0] && a.skip(1) == b.skip(1) {
            assert(a =~= seq![a[0]] + a.skip(1));
            assert(b =~= seq![b[0]] + b.skip(1));
        }
    }
}

} // verus!
