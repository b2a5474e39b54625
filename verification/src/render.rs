//! Rendering snapshots into display panels.
//!
//! Every snapshot becomes one panel: a title, an accent colour, an optional
//! thumbnail, and a fixed list of labelled text fields. Per-server display
//! overrides come from an explicit configuration mapping resolved by server
//! name at render time; a missing or malformed entry falls back to a
//! documented default and is never fatal.

use vstd::prelude::*;

use crate::api::CONTROL_HUMAN;
use crate::api::LiveData;
use crate::api::Vehicle;

verus! {

/// Display overrides for one server name: an optional title override, an
/// optional accent colour as a hex string, and an optional thumbnail.
pub struct ServerDisplayConfig {
    pub display_name: Option<String>,
    pub colour_hex: Option<String>,
    pub thumbnail: Option<String>,
}

/// One configuration entry, keyed by the server's raw display name.
pub struct ConfigEntry {
    pub server_name: String,
    pub config: ServerDisplayConfig,
}

/// The configuration mapping from server name to display overrides.
pub struct DisplayConfig {
    pub entries: Vec<ConfigEntry>,
}

/// The overrides for `name`: the first entry whose key matches, if any.
pub open spec fn config_for(entries: Seq<ConfigEntry>, name: Seq<char>) -> Option<
    ServerDisplayConfig,
>
    decreases entries.len(),
{
    if entries.len() == 0 {
        None
    } else if entries[0].server_name@ == name {
        Some(entries[0].config)
    } else {
        config_for(entries.drop_first(), name)
    }
}

impl DisplayConfig {
    /// Looks up the display overrides for one server name.
    pub fn lookup(&self, name: &String) -> (r: Option<&ServerDisplayConfig>)
        ensures
            match r {
                Some(c) => config_for(self.entries@, name@) == Some(*c),
                None => config_for(self.entries@, name@) is None,
            },
    {
        let mut i: usize = 0;
        proof {
            assert(self.entries@.skip(0) =~= self.entries@);
        }
        while i < self.entries.len()
            invariant
                i <= self.entries@.len(),
                config_for(self.entries@, name@) == config_for(
                    self.entries@.skip(i as int),
                    name@,
                ),
            decreases self.entries@.len() - i,
        {
            proof {
                assert(self.entries@.skip(i as int)[0] == self.entries@[i as int]);
                assert(self.entries@.skip(i as int).drop_first() =~= self.entries@.skip(
                    i as int + 1,
                ));
            }
            if self.entries[i].server_name == *name {
                return Some(&self.entries[i].config);
            }
            i = i + 1;
        }
        proof {
            assert(self.entries@.skip(i as int) =~= Seq::<ConfigEntry>::empty());
        }
        None
    }
}

/// Whether `c` is a hexadecimal digit.
pub open spec fn is_hex_digit(c: char) -> bool {
    (48 <= c as int && c as int <= 57) || (97 <= c as int && c as int <= 102) || (65 <= c as int
        && c as int <= 70)
}

/// The value of one hexadecimal digit.
pub open spec fn hex_digit_val(c: char) -> int {
    if 48 <= c as int && c as int <= 57 {
        c as int - 48
    } else if 97 <= c as int && c as int <= 102 {
        c as int - 97 + 10
    } else {
        c as int - 65 + 10
    }
}

/// The value of a string of hexadecimal digits, most significant first.
pub open spec fn hex_val(s: Seq<char>) -> int
    decreases s.len(),
{
    if s.len() == 0 {
        0
    } else {
        hex_val(s.drop_last()) * 16 + hex_digit_val(s.last())
    }
}

/// Whether every character of `s` is a hexadecimal digit.
pub open spec fn all_hex(s: Seq<char>) -> bool {
    forall|i: int| 0 <= i < s.len() ==> is_hex_digit(#[trigger] s[i])
}

/// A well-formed accent colour string: at least one hexadecimal digit, and a
/// value that fits the colour's 32-bit carrier.
pub open spec fn valid_hex_colour(s: Seq<char>) -> bool {
    s.len() >= 1 && all_hex(s) && hex_val(s) <= u32::MAX
}

proof fn lemma_hex_val_nonneg(s: Seq<char>)
    requires
        all_hex(s),
    ensures
        hex_val(s) >= 0,
    decreases s.len(),
{
    if s.len() > 0 {
        assert(all_hex(s.drop_last()));
        lemma_hex_val_nonneg(s.drop_last());
    }
}

proof fn lemma_hex_val_prefix_le(s: Seq<char>, k: int)
    requires
        0 <= k <= s.len(),
        all_hex(s),
    ensures
        hex_val(s.subrange(0, k)) <= hex_val(s),
    decreases s.len() - k,
{
    if k == s.len() {
        assert(s.subrange(0, k) =~= s);
    } else {
        assert(s.subrange(0, k + 1).drop_last() =~= s.subrange(0, k));
        assert(all_hex(s.subrange(0, k)));
        lemma_hex_val_nonneg(s.subrange(0, k));
        assert(hex_val(s.subrange(0, k + 1)) >= hex_val(s.subrange(0, k)));
        lemma_hex_val_prefix_le(s, k + 1);
    }
}

/// Parses an accent colour given as hexadecimal digits. Returns the value
/// exactly when the string is non-empty, all digits, and fits 32 bits.
pub fn parse_hex_colour(s: &String) -> (r: Option<u32>)
    ensures
        valid_hex_colour(s@) ==> r == Some((hex_val(s@) as u32)),
        !valid_hex_colour(s@) ==> r is None,
{
    let st = s.as_str();
    let n = st.unicode_len();
    if n == 0 {
        return None;
    }
    let mut acc: u32 = 0;
    let mut i: usize = 0;
    proof {
        assert(s@.subrange(0, 0) =~= Seq::<char>::empty());
    }
    while i < n
        invariant
            i <= n,
            n == s@.len(),
            st@ == s@,
            all_hex(s@.subrange(0, i as int)),
            acc == hex_val(s@.subrange(0, i as int)),
        decreases n - i,
    {
        let c = st.get_char(i);
        let v = c as u32;
        let d: u32 = if 48 <= v && v <= 57 {
            v - 48
        } else if 97 <= v && v <= 102 {
            v - 97 + 10
        } else if 65 <= v && v <= 70 {
            v - 65 + 10
        } else {
            proof {
                assert(!is_hex_digit(s@[i as int]));
            }
            return None;
        };
        proof {
            assert(s@.subrange(0, i as int + 1).drop_last() =~= s@.subrange(0, i as int));
        }
        if acc > (u32::MAX - d) / 16 {
            proof {
                assert(hex_val(s@.subrange(0, i as int + 1)) > u32::MAX);
                if all_hex(s@) {
                    lemma_hex_val_prefix_le(s@, i as int + 1);
                }
            }
            return None;
        }
        acc = acc * 16 + d;
        i = i + 1;
    }
    proof {
        assert(s@.subrange(0, n as int) =~= s@);
    }
    Some(acc)
}

/// Strict display order on participant indices: lower race position first,
/// with ties kept in input order.
pub open spec fn lex_before(vs: Seq<Vehicle>, i: int, j: int) -> bool {
    vs[i].m_place < vs[j].m_place || (vs[i].m_place == vs[j].m_place && i < j)
}

/// `idx` lists exactly the human-controlled participants of `vs`, ordered by
/// ascending race position, input order breaking ties. Exactly one index
/// sequence satisfies this for a given participant list.
pub open spec fn is_player_order(idx: Seq<usize>, vs: Seq<Vehicle>) -> bool {
    &&& (forall|k: int|
        0 <= k < idx.len() ==> (#[trigger] idx[k]) < vs.len() && vs[idx[k] as int].m_control
            == CONTROL_HUMAN)
    &&& (forall|v: int|
        0 <= v < vs.len() && (#[trigger] vs[v]).m_control == CONTROL_HUMAN ==> idx.contains(
            v as usize,
        ))
    &&& (forall|a: int, b: int|
        #![trigger idx[a], idx[b]]
        0 <= a < b < idx.len() ==> lex_before(vs, idx[a] as int, idx[b] as int))
}

/// Computes the display order of the human-controlled participants.
pub fn player_order(vehicles: &Vec<Vehicle>) -> (order: Vec<usize>)
    ensures
        is_player_order(order@, vehicles@),
{
    let n = vehicles.len();
    let mut humans: Vec<usize> = Vec::new();
    let mut i: usize = 0;
    while i < n
        invariant
            i <= n,
            n == vehicles@.len(),
            forall|k: int|
                0 <= k < humans@.len() ==> (#[trigger] humans@[k]) < i && vehicles@[humans@[k] as int].m_control
                    == CONTROL_HUMAN,
            forall|a: int, b: int|
                #![trigger humans@[a], humans@[b]]
                0 <= a < b < humans@.len() ==> humans@[a] < humans@[b],
            forall|v: int|
                0 <= v < i && (#[trigger] vehicles@[v]).m_control == CONTROL_HUMAN
                    ==> humans@.contains(v as usize),
        decreases n - i,
    {
        let ghost prev_humans = humans@;
        if vehicles[i].m_control == CONTROL_HUMAN {
            humans.push(i);
        }
        proof {
            assert forall|v: int|
                0 <= v < i + 1 && (#[trigger] vehicles@[v]).m_control == CONTROL_HUMAN
                    implies humans@.contains(v as usize) by {
                if v < i {
                    let kk = choose|kk: int|
                        0 <= kk < prev_humans.len() && prev_humans[kk] == v as usize;
                    assert(humans@[kk] == v as usize);
                } else {
                    assert(humans@[humans@.len() - 1] == i as usize);
                }
            }
        }
        i = i + 1;
    }
    let ghost all_humans = humans@;
    let mut order: Vec<usize> = Vec::new();
    while humans.len() > 0
        invariant
            n == vehicles@.len(),
            forall|k: int|
                0 <= k < humans@.len() ==> (#[trigger] humans@[k]) < n && vehicles@[humans@[k] as int].m_control
                    == CONTROL_HUMAN,
            forall|a: int, b: int|
                #![trigger humans@[a], humans@[b]]
                0 <= a < b < humans@.len() ==> humans@[a] < humans@[b],
            forall|k: int|
                0 <= k < order@.len() ==> (#[trigger] order@[k]) < n && vehicles@[order@[k] as int].m_control
                    == CONTROL_HUMAN,
            forall|a: int, b: int|
                #![trigger order@[a], order@[b]]
                0 <= a < b < order@.len() ==> lex_before(vehicles@, order@[a] as int, order@[b] as int),
            forall|a: int, b: int|
                #![trigger order@[a], humans@[b]]
                0 <= a < order@.len() && 0 <= b < humans@.len() ==> lex_before(
                    vehicles@,
                    order@[a] as int,
                    humans@[b] as int,
                ),
            forall|v: int|
                0 <= v < n && (#[trigger] vehicles@[v]).m_control == CONTROL_HUMAN
                    ==> order@.contains(v as usize) || humans@.contains(v as usize),
        decreases humans@.len(),
    {
        let mut best: usize = 0;
        let mut j: usize = 1;
        while j < humans.len()
            invariant
                n == vehicles@.len(),
                humans@.len() >= 1,
                best < j,
                j <= humans@.len(),
                forall|k: int|
                    0 <= k < humans@.len() ==> (#[trigger] humans@[k]) < n,
                forall|k: int|
                    0 <= k < j ==> vehicles@[humans@[best as int] as int].m_place
                        <= vehicles@[(#[trigger] humans@[k]) as int].m_place,
                forall|k: int|
                    0 <= k < best ==> vehicles@[(#[trigger] humans@[k]) as int].m_place
                        > vehicles@[humans@[best as int] as int].m_place,
            decreases humans@.len() - j,
        {
            if vehicles[humans[j]].m_place < vehicles[humans[best]].m_place {
                best = j;
            }
            j = j + 1;
        }
        let ghost old_humans = humans@;
        let ghost old_order = order@;
        let v = humans.remove(best);
        order.push(v);
        proof {
            assert forall|a: int, b: int|
                #![trigger humans@[a], humans@[b]]
                0 <= a < b < humans@.len() implies humans@[a] < humans@[b] by {
                let a0: int = if a < best { a } else { a + 1 };
                let b0: int = if b < best { b } else { b + 1 };
                assert(humans@[a] == old_humans[a0]);
                assert(humans@[b] == old_humans[b0]);
            }
            // the picked index comes lexically before everything still waiting
            assert forall|b: int| 0 <= b < humans@.len() implies lex_before(
                vehicles@,
                v as int,
                humans@[b] as int,
            ) by {
                let b0: int = if b < best { b } else { b + 1 };
                assert(humans@[b] == old_humans[b0]);
                if b0 < best {
                    assert(vehicles@[old_humans[b0] as int].m_place > vehicles@[v as int].m_place);
                } else {
                    assert(vehicles@[v as int].m_place
                        <= vehicles@[old_humans[b0] as int].m_place);
                    if vehicles@[v as int].m_place == vehicles@[old_humans[b0] as int].m_place {
                        assert(old_humans[best as int] < old_humans[b0]);
                    }
                }
            }
            assert forall|a: int, b: int|
                #![trigger order@[a], humans@[b]]
                0 <= a < order@.len() && 0 <= b < humans@.len() implies lex_before(
                    vehicles@,
                    order@[a] as int,
                    humans@[b] as int,
                ) by {
                let b0: int = if b < best { b } else { b + 1 };
                assert(humans@[b] == old_humans[b0]);
                if a < old_order.len() {
                    assert(order@[a] == old_order[a]);
                } else {
                    assert(order@[a] == v);
                }
            }
            assert forall|a: int, b: int|
                #![trigger order@[a], order@[b]]
                0 <= a < b < order@.len() implies lex_before(
                    vehicles@,
                    order@[a] as int,
                    order@[b] as int,
                ) by {
                assert(order@[a] == old_order[a]);
                if b < old_order.len() {
                    assert(order@[b] == old_order[b]);
                } else {
                    assert(order@[b] == v);
                    assert(lex_before(vehicles@, old_order[a] as int, old_humans[best as int] as int));
                }
            }
            assert forall|w: int|
                0 <= w < n && (#[trigger] vehicles@[w]).m_control == CONTROL_HUMAN
                    implies order@.contains(w as usize) || humans@.contains(w as usize) by {
                if old_order.contains(w as usize) {
                    let kk = choose|kk: int| 0 <= kk < old_order.len() && old_order[kk] == w as usize;
                    assert(order@[kk] == w as usize);
                } else {
                    let kk = choose|kk: int|
                        0 <= kk < old_humans.len() && old_humans[kk] == w as usize;
                    if kk == best {
                        assert(order@[order@.len() - 1] == w as usize);
                    } else if kk < best {
                        assert(humans@[kk] == old_humans[kk]);
                        assert(humans@[kk] == w as usize);
                    } else {
                        assert(humans@[kk - 1] == old_humans[kk]);
                        assert(humans@[kk - 1] == w as usize);
                    }
                }
            }
        }
    }
    order
}

proof fn lemma_lex_sorted_same_members_equal(s1: Seq<usize>, s2: Seq<usize>, vs: Seq<Vehicle>)
    requires
        forall|a: int, b: int|
            #![trigger s1[a], s1[b]]
            0 <= a < b < s1.len() ==> lex_before(vs, s1[a] as int, s1[b] as int),
        forall|a: int, b: int|
            #![trigger s2[a], s2[b]]
            0 <= a < b < s2.len() ==> lex_before(vs, s2[a] as int, s2[b] as int),
        forall|v: usize| #[trigger] s1.contains(v) <==> #[trigger] s2.contains(v),
    ensures
        s1 =~= s2,
    decreases s1.len(),
{
    if s1.len() == 0 {
        if s2.len() > 0 {
            assert(s2.contains(s2[0]));
            assert(s1.contains(s2[0]));
            let k = choose|k: int| 0 <= k < s1.len() && s1[k] == s2[0];
            assert(false);
        }
    } else if s2.len() == 0 {
        assert(s1.contains(s1[0]));
        assert(s2.contains(s1[0]));
        let k = choose|k: int| 0 <= k < s2.len() && s2[k] == s1[0];
        assert(false);
    } else {
        assert(s1.contains(s1[0]));
        assert(s2.contains(s1[0]));
        let p = choose|p: int| 0 <= p < s2.len() && s2[p] == s1[0];
        assert(s2.contains(s2[0]));
        assert(s1.contains(s2[0]));
        let q = choose|q: int| 0 <= q < s1.len() && s1[q] == s2[0];
        if p > 0 && q > 0 {
            assert(lex_before(vs, s2[0] as int, s2[p] as int));
            assert(lex_before(vs, s1[0] as int, s1[q] as int));
            assert(false);
        }
        assert(s1[0] == s2[0]);
        let t1 = s1.drop_first();
        let t2 = s2.drop_first();
        assert forall|a: int, b: int|
            #![trigger t1[a], t1[b]]
            0 <= a < b < t1.len() implies lex_before(vs, t1[a] as int, t1[b] as int) by {
            assert(t1[a] == s1[a + 1]);
            assert(t1[b] == s1[b + 1]);
        }
        assert forall|a: int, b: int|
            #![trigger t2[a], t2[b]]
            0 <= a < b < t2.len() implies lex_before(vs, t2[a] as int, t2[b] as int) by {
            assert(t2[a] == s2[a + 1]);
            assert(t2[b] == s2[b + 1]);
        }
        assert forall|v: usize| #[trigger] t1.contains(v) implies #[trigger] t2.contains(v) by {
            let k = choose|k: int| 0 <= k < t1.len() && t1[k] == v;
            assert(s1[k + 1] == v);
            assert(s1.contains(v));
            assert(lex_before(vs, s1[0] as int, s1[k + 1] as int));
            assert(v != s1[0]);
            assert(s2.contains(v));
            let m = choose|m: int| 0 <= m < s2.len() && s2[m] == v;
            assert(m != 0);
            assert(t2[m - 1] == v);
            assert(t2.contains(v));
        }
        assert forall|v: usize| #[trigger] t2.contains(v) implies #[trigger] t1.contains(v) by {
            let k = choose|k: int| 0 <= k < t2.len() && t2[k] == v;
            assert(s2[k + 1] == v);
            assert(s2.contains(v));
            assert(lex_before(vs, s2[0] as int, s2[k + 1] as int));
            assert(v != s2[0]);
            assert(s1.contains(v));
            let m = choose|m: int| 0 <= m < s1.len() && s1[m] == v;
            assert(m != 0);
            assert(t1[m - 1] == v);
            assert(t1.contains(v));
        }
        lemma_lex_sorted_same_members_equal(t1, t2, vs);
        assert forall|i: int| 0 <= i < s1.len() implies s1[i] == s2[i] by {
            if i > 0 {
                assert(t1[i - 1] == t2[i - 1]);
            }
        }
    }
}

/// The display order of a participant list is unique: any two index
/// sequences that both satisfy `is_player_order` are the same, so the
/// rendered drivers text is fully determined by the participant list.
pub proof fn lemma_player_order_unique(idx1: Seq<usize>, idx2: Seq<usize>, vs: Seq<Vehicle>)
    requires
        is_player_order(idx1, vs),
        is_player_order(idx2, vs),
    ensures
        idx1 == idx2,
{
    assert forall|v: usize| #[trigger] idx1.contains(v) implies #[trigger] idx2.contains(v) by {
        let k = choose|k: int| 0 <= k < idx1.len() && idx1[k] == v;
        assert(idx1[k] < vs.len() && vs[idx1[k] as int].m_control == CONTROL_HUMAN);
        assert(vs[v as int].m_control == CONTROL_HUMAN);
        assert(idx2.contains(v));
    }
    assert forall|v: usize| #[trigger] idx2.contains(v) implies #[trigger] idx1.contains(v) by {
        let k = choose|k: int| 0 <= k < idx2.len() && idx2[k] == v;
        assert(idx2[k] < vs.len() && vs[idx2[k] as int].m_control == CONTROL_HUMAN);
        assert(vs[v as int].m_control == CONTROL_HUMAN);
        assert(idx1.contains(v));
    }
    lemma_lex_sorted_same_members_equal(idx1, idx2, vs);
    assert(idx1 =~= idx2);
}

/// The four-line bullet shown for one driver: name, total laps, last lap
/// time, and best lap time.
pub open spec fn driver_bullet(v: Vehicle) -> Seq<char> {
    "* "@ + v.m_driver_name@ + "\n  * Laps: "@ + crate::utils::int_dec_chars(v.m_total_laps as int)
        + "\n  * Last Lap: "@ + crate::utils::laptime_chars(v.m_last_lap_time as int)
        + "\n  * Fastest Lap: "@ + crate::utils::laptime_chars(v.m_best_lap_time as int)
}

/// The bullets for the participants listed by `idx`, joined by line breaks.
pub open spec fn drivers_lines(vs: Seq<Vehicle>, idx: Seq<usize>) -> Seq<char>
    decreases idx.len(),
{
    if idx.len() == 0 {
        Seq::<char>::empty()
    } else if idx.len() == 1 {
        driver_bullet(vs[idx[0] as int])
    } else {
        drivers_lines(vs, idx.drop_last()) + "\n"@ + driver_bullet(vs[idx.last() as int])
    }
}

/// The full drivers field: the literal `None` when no participant is
/// human-controlled, the joined bullets otherwise.
pub open spec fn drivers_text(vs: Seq<Vehicle>, idx: Seq<usize>) -> Seq<char> {
    if idx.len() == 0 {
        "None"@
    } else {
        drivers_lines(vs, idx)
    }
}

/// What the drivers field of a panel must show for the participants `vs`.
pub open spec fn drivers_text_ok(text: Seq<char>, vs: Seq<Vehicle>) -> bool {
    exists|idx: Seq<usize>| #[trigger] is_player_order(idx, vs) && text == drivers_text(vs, idx)
}

fn driver_bullet_text(v: &Vehicle) -> (s: String)
    ensures
        s@ == driver_bullet(*v),
{
    let mut s = String::from_str("* ");
    s.append(v.m_driver_name.as_str());
    s.append("\n  * Laps: ");
    let laps = crate::utils::i64_dec(v.m_total_laps as i64);
    s.append(laps.as_str());
    s.append("\n  * Last Lap: ");
    let last = crate::utils::format_laptime(v.m_last_lap_time);
    s.append(last.as_str());
    s.append("\n  * Fastest Lap: ");
    let best = crate::utils::format_laptime(v.m_best_lap_time);
    s.append(best.as_str());
    proof {
        assert(s@ =~= driver_bullet(*v));
    }
    s
}

/// Formats the participant list for display: human-controlled entries only,
/// sorted by ascending race position (ties keep input order), each as a
/// four-line bullet; `None` when no entry is human-controlled.
pub fn format_drivers(vehicles: &Vec<Vehicle>) -> (r: String)
    ensures
        drivers_text_ok(r@, vehicles@),
        forall|idx: Seq<usize>|
            #[trigger] is_player_order(idx, vehicles@) ==> r@ == drivers_text(vehicles@, idx),
{
    let order = player_order(vehicles);
    if order.len() == 0 {
        let r = "None".to_owned();
        proof {
            assert(is_player_order(order@, vehicles@) && r@ == drivers_text(vehicles@, order@));
            assert forall|idx: Seq<usize>| #[trigger] is_player_order(idx, vehicles@) implies r@
                == drivers_text(vehicles@, idx) by {
                lemma_player_order_unique(idx, order@, vehicles@);
            }
        }
        return r;
    }
    let mut s = driver_bullet_text(&vehicles[order[0]]);
    let mut k: usize = 1;
    proof {
        assert(order@.subrange(0, 1) =~= seq![order@[0]]);
    }
    while k < order.len()
        invariant
            1 <= k <= order@.len(),
            is_player_order(order@, vehicles@),
            vehicles@.len() == vehicles.len(),
            s@ == drivers_lines(vehicles@, order@.subrange(0, k as int)),
        decreases order@.len() - k,
    {
        s.append("\n");
        let bullet = driver_bullet_text(&vehicles[order[k]]);
        s.append(bullet.as_str());
        proof {
            assert(order@.subrange(0, k as int + 1).drop_last() =~= order@.subrange(0, k as int));
            assert(order@.subrange(0, k as int + 1).last() == order@[k as int]);
        }
        k = k + 1;
    }
    proof {
        assert(order@.subrange(0, order@.len() as int) =~= order@);
        assert(is_player_order(order@, vehicles@) && s@ == drivers_text(vehicles@, order@));
        assert forall|idx: Seq<usize>| #[trigger] is_player_order(idx, vehicles@) implies s@
            == drivers_text(vehicles@, idx) by {
            lemma_player_order_unique(idx, order@, vehicles@);
        }
    }
    s
}

/// The accent colour used when none is configured or the configured string
/// does not parse: neutral black, the sink's own default.
pub const DEFAULT_COLOUR: u32 = 0;

/// A panel's title: the configured display name when one is set, the raw
/// server name otherwise.
pub open spec fn title_chars(server_name: Seq<char>, cfg: Option<ServerDisplayConfig>) -> Seq<
    char,
> {
    match cfg {
        Some(c) => match c.display_name {
            Some(d) => d@,
            None => server_name,
        },
        None => server_name,
    }
}

/// A panel's accent colour: the configured hex string reduced to its low 24
/// bits when it parses, the default otherwise.
pub open spec fn accent_colour_spec(cfg: Option<ServerDisplayConfig>) -> u32 {
    match cfg {
        Some(c) => match c.colour_hex {
            Some(h) => if valid_hex_colour(h@) {
                (hex_val(h@) as u32) & 0xFFFFFF
            } else {
                DEFAULT_COLOUR
            },
            None => DEFAULT_COLOUR,
        },
        None => DEFAULT_COLOUR,
    }
}

/// A panel's optional thumbnail: the configured reference, if any.
pub open spec fn thumbnail_spec(cfg: Option<ServerDisplayConfig>) -> Option<Seq<char>> {
    match cfg {
        Some(c) => match c.thumbnail {
            Some(t) => Some(t@),
            None => None,
        },
        None => None,
    }
}

/// One labelled text field of a panel.
pub struct PanelField {
    pub label: String,
    pub text: String,
    pub inline: bool,
}

/// The display-ready form of one snapshot.
pub struct Panel {
    pub title: String,
    pub colour: u32,
    pub thumbnail: Option<String>,
    pub fields: Vec<PanelField>,
}

/// Whether one field shows the given label, text and inline hint.
pub open spec fn field_is(f: PanelField, label: Seq<char>, text: Seq<char>, inline: bool) -> bool {
    f.label@ == label && f.text@ == text && f.inline == inline
}

/// What a rendered panel must show for snapshot `snap` under the overrides
/// `cfg`: title, accent colour, thumbnail, and the five fields in fixed
/// order.
pub open spec fn panel_matches(p: Panel, snap: LiveData, cfg: Option<ServerDisplayConfig>) -> bool {
    let si = snap.m_scoring_info;
    &&& p.title@ == title_chars(si.m_server_name@, cfg)
    &&& p.colour == accent_colour_spec(cfg)
    &&& match (p.thumbnail, thumbnail_spec(cfg)) {
        (Some(a), Some(b)) => a@ == b,
        (None, None) => true,
        _ => false,
    }
    &&& p.fields@.len() == 5
    &&& field_is(p.fields@[0], "Track"@, si.m_track_name@, false)
    &&& p.fields@[1].label@ == "Drivers"@
    &&& drivers_text_ok(p.fields@[1].text@, snap.m_vehicles@)
    &&& p.fields@[1].inline == false
    &&& field_is(
        p.fields@[2],
        "Track temperature"@,
        crate::utils::temp_chars(si.m_track_temp as int),
        true,
    )
    &&& field_is(
        p.fields@[3],
        "Ambient"@,
        crate::utils::temp_chars(si.m_ambient_temp as int),
        true,
    )
    &&& field_is(
        p.fields@[4],
        "Elapsed / End time"@,
        crate::utils::minutes_time_chars(si.m_current_et as int) + " / "@
            + crate::utils::minutes_time_chars(si.m_end_et as int),
        false,
    )
}

/// Resolves the accent colour for a set of overrides.
fn accent_colour(cfg: Option<&ServerDisplayConfig>) -> (r: u32)
    ensures
        match cfg {
            Some(c) => r == accent_colour_spec(Some(*c)),
            None => r == accent_colour_spec(None::<ServerDisplayConfig>),
        },
{
    match cfg {
        Some(c) => match &c.colour_hex {
            Some(h) => match parse_hex_colour(h) {
                Some(v) => v & 0xFFFFFF,
                None => DEFAULT_COLOUR,
            },
            None => DEFAULT_COLOUR,
        },
        None => DEFAULT_COLOUR,
    }
}

/// Renders one snapshot into its panel under the given configuration.
pub fn render_snapshot(snap: &LiveData, config: &DisplayConfig) -> (p: Panel)
    ensures
        panel_matches(p, *snap, config_for(config.entries@, snap.m_scoring_info.m_server_name@)),
{
    let cfg = config.lookup(&snap.m_scoring_info.m_server_name);
    let title = match cfg {
        Some(c) => match &c.display_name {
            Some(d) => d.clone(),
            None => snap.m_scoring_info.m_server_name.clone(),
        },
        None => snap.m_scoring_info.m_server_name.clone(),
    };
    let colour = accent_colour(cfg);
    let thumbnail = match cfg {
        Some(c) => match &c.thumbnail {
            Some(t) => Some(t.clone()),
            None => None,
        },
        None => None,
    };
    let mut fields: Vec<PanelField> = Vec::new();
    fields.push(
        PanelField {
            label: "Track".to_owned(),
            text: snap.m_scoring_info.m_track_name.clone(),
            inline: false,
        },
    );
    fields.push(
        PanelField {
            label: "Drivers".to_owned(),
            text: format_drivers(&snap.m_vehicles),
            inline: false,
        },
    );
    fields.push(
        PanelField {
            label: "Track temperature".to_owned(),
            text: crate::utils::format_temp(snap.m_scoring_info.m_track_temp),
            inline: true,
        },
    );
    fields.push(
        PanelField {
            label: "Ambient".to_owned(),
            text: crate::utils::format_temp(snap.m_scoring_info.m_ambient_temp),
            inline: true,
        },
    );
    let mut times = crate::utils::format_minutes_time(snap.m_scoring_info.m_current_et);
    times.append(" / ");
    let end_time = crate::utils::format_minutes_time(snap.m_scoring_info.m_end_et);
    times.append(end_time.as_str());
    fields.push(
        PanelField { label: "Elapsed / End time".to_owned(), text: times, inline: false },
    );
    Panel { title, colour, thumbnail, fields }
}

/// Renders an ordered snapshot list into its panels, one per snapshot, order
/// preserved.
pub fn render(snapshots: &Vec<LiveData>, config: &DisplayConfig) -> (panels: Vec<Panel>)
    ensures
        panels@.len() == snapshots@.len(),
        forall|i: int|
            0 <= i < snapshots@.len() ==> panel_matches(
                #[trigger] panels@[i],
                snapshots@[i],
                config_for(config.entries@, snapshots@[i].m_scoring_info.m_server_name@),
            ),
{
    let mut panels: Vec<Panel> = Vec::new();
    let mut i: usize = 0;
    while i < snapshots.len()
        invariant
            i <= snapshots@.len(),
            snapshots@.len() == snapshots.len(),
            panels@.len() == i,
            forall|k: int|
                0 <= k < i ==> panel_matches(
                    #[trigger] panels@[k],
                    snapshots@[k],
                    config_for(config.entries@, snapshots@[k].m_scoring_info.m_server_name@),
                ),
        decreases snapshots@.len() - i,
    {
        let p = render_snapshot(&snapshots[i], config);
        panels.push(p);
        i = i + 1;
    }
    panels
}

} // verus!
