//! Minecraft's LAN game announcements: `[MOTD]motd[/MOTD][AD]port[/AD]`.
use vstd::prelude::*;
use crate::events::GameInfo;
use crate::protocol::GameInfoView;
use crate::text::{
    chars_of, concat, decimal, decimal_string, find, find_first, find_from, parse_unsigned,
    parse_unsigned_spec, string_from_chars,
};

verus! {

/// Where the four markers of an announcement first occur in `data`, if all do.
pub open spec fn marker_positions(data: Seq<char>) -> Option<(nat, nat, nat, nat)> {
    match (
        find_first(data, "[MOTD]"@),
        find_first(data, "[/MOTD]"@),
        find_first(data, "[AD]"@),
        find_first(data, "[/AD]"@),
    ) {
        (Some(a), Some(b), Some(c), Some(d)) => Some((a, b, c, d)),
        _ => None,
    }
}

/// Whether reading `data` would slice backwards: all markers are present but
/// the motd or the port would start after its closing marker.
pub open spec fn lan_broadcast_out_of_order(data: Seq<char>) -> bool {
    match marker_positions(data) {
        Some((a, b, c, d)) => a + "[MOTD]"@.len() > b || c + "[AD]"@.len() > d,
        None => false,
    }
}

/// The game that announcement `data` names: the text between the first `[MOTD]`
/// and the first `[/MOTD]`, and the port between the first `[AD]` and the first
/// `[/AD]`, which must read as a `u16`.
pub open spec fn lan_broadcast_game(data: Seq<char>) -> Option<GameInfoView> {
    match marker_positions(data) {
        Some((a, b, c, d)) => match parse_unsigned_spec(
            data.subrange((c + "[AD]"@.len()) as int, d as int),
            65535,
        ) {
            Some(port) => Some(
                GameInfoView { motd: data.subrange((a + "[MOTD]"@.len()) as int, b as int), port: port as u16 },
            ),
            None => None,
        },
        None => None,
    }
}

fn positions(cs: &Vec<char>) -> (r: Option<(usize, usize, usize, usize)>)
    ensures
        match r {
            Some((a, b, c, d)) => marker_positions(cs@) == Some((a as nat, b as nat, c as nat, d as nat)),
            None => marker_positions(cs@) is None,
        },
        r matches Some((a, b, c, d)) ==> a + "[MOTD]"@.len() <= cs@.len() && b + "[/MOTD]"@.len()
            <= cs@.len() && c + "[AD]"@.len() <= cs@.len() && d + "[/AD]"@.len() <= cs@.len(),
{
    let a = find(cs, &chars_of("[MOTD]"));
    let b = find(cs, &chars_of("[/MOTD]"));
    let c = find(cs, &chars_of("[AD]"));
    let d = find(cs, &chars_of("[/AD]"));
    match (a, b, c, d) {
        (Some(a), Some(b), Some(c), Some(d)) => {
            proof {
                crate::text::lemma_find_in_bounds(cs@, "[MOTD]"@);
                crate::text::lemma_find_in_bounds(cs@, "[/MOTD]"@);
                crate::text::lemma_find_in_bounds(cs@, "[AD]"@);
                crate::text::lemma_find_in_bounds(cs@, "[/AD]"@);
            }
            Some((a, b, c, d))
        },
        _ => None,
    }
}

/// Whether `data` can be read without slicing backwards (see `parse_lan_broadcast`).
pub fn lan_broadcast_in_order(data: &str) -> (b: bool)
    ensures
        b == !lan_broadcast_out_of_order(data@),
{
    let cs = chars_of(data);
    let _n = cs.len();
    let motd_len = chars_of("[MOTD]").len();
    let ad_len = chars_of("[AD]").len();
    let pos = positions(&cs);
    match pos {
        Some((a, b, c, d)) => {
            !(a + motd_len > b || c + ad_len > d)
        },
        None => true,
    }
}

/// The game that a LAN announcement names, if it names one.
pub fn parse_lan_broadcast(data: &str) -> (r: Option<GameInfo>)
    requires
        !lan_broadcast_out_of_order(data@),
    ensures
        match lan_broadcast_game(data@) {
            Some(g) => r matches Some(x) && x@ == g,
            None => r is None,
        },
{
    let cs = chars_of(data);
    let _n = cs.len();
    let motd_len = chars_of("[MOTD]").len();
    let ad_len = chars_of("[AD]").len();
    match positions(&cs) {
        Some((a, b, c, d)) => {
            let motd = string_from_chars(&cs, a + motd_len, b);
            match parse_unsigned(&cs, c + ad_len, d, 65535) {
                Some(port) => Some(GameInfo { motd, port: port as u16 }),
                None => None,
            }
        },
        None => None,
    }
}

/// The announcement text for a game.
pub open spec fn lan_announcement_text(motd: Seq<char>, port: u16) -> Seq<char> {
    "[MOTD]"@ + motd + "[/MOTD]"@ + "[AD]"@ + decimal(port as nat) + "[/AD]"@
}

/// The announcement that advertises a tunnelled game on the guest's LAN.
pub fn lan_announcement(motd: &str, port: u16) -> (s: String)
    ensures
        s@ == lan_announcement_text(motd@, port),
{
    let mut s = concat("[MOTD]", motd);
    s.append("[/MOTD]");
    s.append("[AD]");
    let p = decimal_string(port as u64);
    s.append(p.as_str());
    s.append("[/AD]");
    s
}

// ── Reading back an announcement ─────────────────────

/// Whether `n` occurs in `h` at position `j`.
pub open spec fn occurs_at(h: Seq<char>, n: Seq<char>, j: int) -> bool {
    0 <= j && j + n.len() <= h.len() && h.subrange(j, j + n.len()) == n
}

proof fn lemma_first_occurrence(h: Seq<char>, n: Seq<char>, i: nat, k: nat)
    requires
        n.len() > 0,
        i <= k,
        occurs_at(h, n, k as int),
        forall|j: int| i <= j < k ==> !#[trigger] occurs_at(h, n, j),
    ensures
        find_from(h, n, i) == Some(k),
    decreases k - i,
{
    if i < k {
        assert(!occurs_at(h, n, i as int));
        lemma_first_occurrence(h, n, i + 1, k);
    }
}

/// A marker: `[` first and nowhere else.
pub open spec fn is_marker(n: Seq<char>) -> bool {
    n.len() > 0 && n[0] == '[' && forall|t: int| 1 <= t < n.len() ==> n[t] != '['
}

proof fn lemma_marker_occurrence(h: Seq<char>, n: Seq<char>, j: int, q: int)
    requires
        is_marker(n),
        occurs_at(h, n, j),
        j < q < j + n.len(),
    ensures
        h[j] == '[',
        h[q] != '[',
{
    assert(h.subrange(j, j + n.len())[0] == h[j]);
    assert(h.subrange(j, j + n.len())[q - j] == h[q]);
}

proof fn lemma_occurrence_char(h: Seq<char>, n: Seq<char>, j: int, t: int)
    requires
        occurs_at(h, n, j),
        0 <= t < n.len(),
    ensures
        h[j + t] == n[t],
{
    assert(h.subrange(j, j + n.len())[t] == h[j + t]);
}

/// An announcement of a game whose motd holds none of the closing markers
/// (`[/MOTD]`, `[AD]`, `[/AD]`) reads back as that game, and reading it never
/// slices backwards.
pub proof fn lemma_announcement_reads_back(motd: Seq<char>, port: u16)
    requires
        !crate::text::occurs_in(motd, "[/MOTD]"@),
        !crate::text::occurs_in(motd, "[AD]"@),
        !crate::text::occurs_in(motd, "[/AD]"@),
    ensures
        !lan_broadcast_out_of_order(lan_announcement_text(motd, port)),
        lan_broadcast_game(lan_announcement_text(motd, port)) == Some(GameInfoView { motd, port }),
{
    reveal_strlit("[MOTD]");
    reveal_strlit("[/MOTD]");
    reveal_strlit("[AD]");
    reveal_strlit("[/AD]");
    let n1 = "[MOTD]"@;
    let n2 = "[/MOTD]"@;
    let n3 = "[AD]"@;
    let n4 = "[/AD]"@;
    let digits = decimal(port as nat);
    crate::text::lemma_decimal_reads_back(port as nat);
    let t = lan_announcement_text(motd, port);
    let m = motd.len() as int;
    let dl = digits.len() as int;
    let b = 6 + m;
    let c = b + 7;
    let d = c + 4 + dl;
    assert(t.len() == d + 5);
    assert(is_marker(n2) && is_marker(n3) && is_marker(n4));
    // Where each piece of the announcement sits.
    assert forall|k: int| 0 <= k < 6 implies #[trigger] t[k] == n1[k] by {}
    assert forall|k: int| 6 <= k < b implies #[trigger] t[k] == motd[k - 6] by {}
    assert forall|k: int| b <= k < c implies #[trigger] t[k] == n2[k - b] by {}
    assert forall|k: int| c <= k < c + 4 implies #[trigger] t[k] == n3[k - c] by {}
    assert forall|k: int| c + 4 <= k < d implies #[trigger] t[k] == digits[k - c - 4] by {}
    assert forall|k: int| d <= k < d + 5 implies #[trigger] t[k] == n4[k - d] by {}
    assert(t.subrange(0, 6) =~= n1);
    assert(t.subrange(b, b + 7) =~= n2);
    assert(t.subrange(c, c + 4) =~= n3);
    assert(t.subrange(d, d + 5) =~= n4);
    assert(t.subrange(6, b) =~= motd);
    assert(t.subrange(c + 4, d) =~= digits);
    // No marker starts inside the motd, nor straddles its end.
    assert forall|n: Seq<char>, j: int|
        is_marker(n) && !crate::text::occurs_in(motd, n) && 6 <= j < b implies !#[trigger] occurs_at(
        t,
        n,
        j,
    ) by {
        if occurs_at(t, n, j) {
            if j + n.len() <= b {
                assert(t.subrange(j, j + n.len()) =~= motd.subrange(j - 6, j - 6 + n.len()));
                assert(motd.subrange(j - 6, j - 6 + n.len()) == n);
            } else {
                lemma_marker_occurrence(t, n, j, b);
            }
        }
    }
    // `[MOTD]` first occurs at 0.
    assert(occurs_at(t, n1, 0));
    lemma_first_occurrence(t, n1, 0, 0);
    // `[/MOTD]` first occurs after the motd.
    assert forall|j: int| 0 <= j < b implies !#[trigger] occurs_at(t, n2, j) by {
        if j < 6 && occurs_at(t, n2, j) {
            lemma_occurrence_char(t, n2, j, 0);
            lemma_occurrence_char(t, n2, j, 1);
        }
    }
    assert(occurs_at(t, n2, b));
    lemma_first_occurrence(t, n2, 0, b as nat);
    // `[AD]` first occurs after `[/MOTD]`.
    assert forall|j: int| 0 <= j < c implies !#[trigger] occurs_at(t, n3, j) by {
        if (j < 6 || b <= j) && occurs_at(t, n3, j) {
            lemma_occurrence_char(t, n3, j, 0);
            lemma_occurrence_char(t, n3, j, 1);
        }
    }
    assert(occurs_at(t, n3, c));
    lemma_first_occurrence(t, n3, 0, c as nat);
    // `[/AD]` first occurs after the port.
    assert forall|j: int| 0 <= j < d implies !#[trigger] occurs_at(t, n4, j) by {
        if (j < 6 || b <= j) && occurs_at(t, n4, j) {
            lemma_occurrence_char(t, n4, j, 0);
            lemma_occurrence_char(t, n4, j, 1);
            lemma_occurrence_char(t, n4, j, 2);
            if c + 4 <= j {
                assert(crate::text::is_digit(digits[j - c - 4]));
            }
        }
    }
    assert(occurs_at(t, n4, d));
    lemma_first_occurrence(t, n4, 0, d as nat);
    assert(marker_positions(t) == Some((0nat, b as nat, c as nat, d as nat)));
    assert(crate::text::unsigned_digits(digits) == digits);
}

} // verus!
