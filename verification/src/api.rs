//! The snapshot data model.
//!
//! A snapshot is one immutable fetch result for one target. Quantities that
//! the upstream serialises with a fractional part are carried here as exact
//! fixed-point integers: times in milliseconds, temperatures in hundredths of
//! a degree Celsius, and other readings (distance, wetness, fuel, wear,
//! speed) in thousandths of their unit. Absent data is represented
//! explicitly, e.g. a non-positive sentinel time, never omitted.
//!
//! Equality between snapshots is structural: two snapshots are equal exactly
//! when every field, including every participant field and the participant
//! list order, is equal. The `PartialEq` impls below are written by hand so
//! that `==` carries that meaning in contracts as well.

use vstd::prelude::*;

verus! {

/// One known sub-target in the default snapshot's catalog.
pub struct Server {
    pub pid: i32,
    pub name: String,
    pub num: i32,
    pub label_name: String,
}

/// Session-wide information of one snapshot.
pub struct ScoringInfo {
    pub m_server_name: String,
    pub m_track_name: String,
    pub m_session: i32,
    /// Elapsed session time in milliseconds.
    pub m_current_et: i64,
    /// Scheduled session end time in milliseconds.
    pub m_end_et: i64,
    pub m_max_laps: i32,
    /// Track length in thousandths of the upstream unit.
    pub m_lap_dist: i64,
    pub m_num_vehicles: i32,
    pub m_game_phase: i32,
    pub m_yellow_flag_state: i32,
    pub m_sector_flag: Vec<i32>,
    /// Rain intensity in thousandths.
    pub m_raining: i64,
    /// Ambient temperature in hundredths of a degree Celsius.
    pub m_ambient_temp: i64,
    /// Track temperature in hundredths of a degree Celsius.
    pub m_track_temp: i64,
    /// Path wetness extremes in thousandths.
    pub m_min_path_wetness: i64,
    pub m_max_path_wetness: i64,
}

/// One participant record of a snapshot.
pub struct Vehicle {
    pub m_id: i32,
    pub m_driver_name: String,
    pub m_vehicle_name: String,
    pub m_total_laps: i32,
    pub m_sector: i32,
    pub m_finish_status: i32,
    /// Distance along the lap in thousandths of the upstream unit.
    pub m_lap_dist: i64,
    /// Sector and lap times in milliseconds; non-positive means no time set.
    pub m_best_sector1: i64,
    pub m_best_sector2: i64,
    pub m_best_lap_time: i64,
    pub m_last_sector1: i64,
    pub m_last_sector2: i64,
    pub m_last_lap_time: i64,
    pub m_cur_sector1: i64,
    pub m_cur_sector2: i64,
    pub m_num_pitstops: String,
    pub m_is_player: i32,
    /// Control mode; `CONTROL_HUMAN` marks a human-driven entry.
    pub m_control: i32,
    pub m_in_pits: i32,
    /// Race position, lower is better.
    pub m_place: i32,
    pub m_vehicle_class: String,
    /// Gaps in milliseconds.
    pub m_time_behind_next: i64,
    pub m_time_behind_leader: i64,
    pub m_laps_behind_leader: i32,
    pub m_in_garage_stall: i32,
    pub m_front_tire_compound_name: String,
    pub m_rear_tire_compound_name: String,
    pub m_rear_tire_compound_index: i32,
    pub m_front_tire_compound_index: i32,
    /// Fuel level in hundredths.
    pub m_fuel: i64,
    /// Tire wear per corner in thousandths.
    pub m_wear: Vec<i64>,
    /// Instantaneous speed in thousandths.
    pub speed: i64,
}

/// The control-mode code of a human-driven participant.
pub const CONTROL_HUMAN: i32 = 2;

/// One fetch result: session info, participants, and (on the default target)
/// the catalog of known sub-targets.
pub struct LiveData {
    /// Session-best sector and lap times in milliseconds.
    pub best_s1: i64,
    pub best_s2: i64,
    pub best_s3: i64,
    pub best_laptime: i64,
    pub m_scoring_info: ScoringInfo,
    pub m_vehicles: Vec<Vehicle>,
    pub show_ai_fuel_data: i32,
    pub show_ai_tire_wear: i32,
    pub show_class: i32,
    pub show_vehicle: i32,
    pub show_avg_lap_speed: i32,
    pub show_mph: i32,
    /// Catalog of sub-targets; the source of truth for what to fetch next.
    pub server_list: Vec<Server>,
    pub server_names_list: Vec<String>,
}

/// Element-wise equality of two integer sequences.
pub open spec fn i32_seq_eq(a: Seq<i32>, b: Seq<i32>) -> bool {
    a.len() == b.len() && (forall|i: int| 0 <= i < a.len() ==> a[i] == b[i])
}

/// Element-wise equality of two integer sequences.
pub open spec fn i64_seq_eq(a: Seq<i64>, b: Seq<i64>) -> bool {
    a.len() == b.len() && (forall|i: int| 0 <= i < a.len() ==> a[i] == b[i])
}

/// Element-wise equality of two string sequences, by contents.
pub open spec fn string_seq_eq(a: Seq<String>, b: Seq<String>) -> bool {
    a.len() == b.len() && (forall|i: int| 0 <= i < a.len() ==> a[i]@ == b[i]@)
}

/// Structural equality of catalog entries.
pub open spec fn server_eq(a: Server, b: Server) -> bool {
    &&& a.pid == b.pid
    &&& a.name@ == b.name@
    &&& a.num == b.num
    &&& a.label_name@ == b.label_name@
}

/// Element-wise structural equality of two catalogs.
pub open spec fn server_seq_eq(a: Seq<Server>, b: Seq<Server>) -> bool {
    a.len() == b.len() && (forall|i: int| 0 <= i < a.len() ==> server_eq(a[i], b[i]))
}

/// Structural equality of session info.
pub open spec fn scoring_eq(a: ScoringInfo, b: ScoringInfo) -> bool {
    &&& a.m_server_name@ == b.m_server_name@
    &&& a.m_track_name@ == b.m_track_name@
    &&& a.m_session == b.m_session
    &&& a.m_current_et == b.m_current_et
    &&& a.m_end_et == b.m_end_et
    &&& a.m_max_laps == b.m_max_laps
    &&& a.m_lap_dist == b.m_lap_dist
    &&& a.m_num_vehicles == b.m_num_vehicles
    &&& a.m_game_phase == b.m_game_phase
    &&& a.m_yellow_flag_state == b.m_yellow_flag_state
    &&& i32_seq_eq(a.m_sector_flag@, b.m_sector_flag@)
    &&& a.m_raining == b.m_raining
    &&& a.m_ambient_temp == b.m_ambient_temp
    &&& a.m_track_temp == b.m_track_temp
    &&& a.m_min_path_wetness == b.m_min_path_wetness
    &&& a.m_max_path_wetness == b.m_max_path_wetness
}

/// Structural equality of participant records.
pub open spec fn vehicle_eq(a: Vehicle, b: Vehicle) -> bool {
    &&& a.m_id == b.m_id
    &&& a.m_driver_name@ == b.m_driver_name@
    &&& a.m_vehicle_name@ == b.m_vehicle_name@
    &&& a.m_total_laps == b.m_total_laps
    &&& a.m_sector == b.m_sector
    &&& a.m_finish_status == b.m_finish_status
    &&& a.m_lap_dist == b.m_lap_dist
    &&& a.m_best_sector1 == b.m_best_sector1
    &&& a.m_best_sector2 == b.m_best_sector2
    &&& a.m_best_lap_time == b.m_best_lap_time
    &&& a.m_last_sector1 == b.m_last_sector1
    &&& a.m_last_sector2 == b.m_last_sector2
    &&& a.m_last_lap_time == b.m_last_lap_time
    &&& a.m_cur_sector1 == b.m_cur_sector1
    &&& a.m_cur_sector2 == b.m_cur_sector2
    &&& a.m_num_pitstops@ == b.m_num_pitstops@
    &&& a.m_is_player == b.m_is_player
    &&& a.m_control == b.m_control
    &&& a.m_in_pits == b.m_in_pits
    &&& a.m_place == b.m_place
    &&& a.m_vehicle_class@ == b.m_vehicle_class@
    &&& a.m_time_behind_next == b.m_time_behind_next
    &&& a.m_time_behind_leader == b.m_time_behind_leader
    &&& a.m_laps_behind_leader == b.m_laps_behind_leader
    &&& a.m_in_garage_stall == b.m_in_garage_stall
    &&& a.m_front_tire_compound_name@ == b.m_front_tire_compound_name@
    &&& a.m_rear_tire_compound_name@ == b.m_rear_tire_compound_name@
    &&& a.m_rear_tire_compound_index == b.m_rear_tire_compound_index
    &&& a.m_front_tire_compound_index == b.m_front_tire_compound_index
    &&& a.m_fuel == b.m_fuel
    &&& i64_seq_eq(a.m_wear@, b.m_wear@)
    &&& a.speed == b.speed
}

/// Element-wise structural equality of two participant lists.
pub open spec fn vehicle_seq_eq(a: Seq<Vehicle>, b: Seq<Vehicle>) -> bool {
    a.len() == b.len() && (forall|i: int| 0 <= i < a.len() ==> vehicle_eq(a[i], b[i]))
}

/// Structural equality of snapshots: every field, every participant, and the
/// participant list order.
pub open spec fn live_eq(a: LiveData, b: LiveData) -> bool {
    &&& a.best_s1 == b.best_s1
    &&& a.best_s2 == b.best_s2
    &&& a.best_s3 == b.best_s3
    &&& a.best_laptime == b.best_laptime
    &&& scoring_eq(a.m_scoring_info, b.m_scoring_info)
    &&& vehicle_seq_eq(a.m_vehicles@, b.m_vehicles@)
    &&& a.show_ai_fuel_data == b.show_ai_fuel_data
    &&& a.show_ai_tire_wear == b.show_ai_tire_wear
    &&& a.show_class == b.show_class
    &&& a.show_vehicle == b.show_vehicle
    &&& a.show_avg_lap_speed == b.show_avg_lap_speed
    &&& a.show_mph == b.show_mph
    &&& server_seq_eq(a.server_list@, b.server_list@)
    &&& string_seq_eq(a.server_names_list@, b.server_names_list@)
}

/// Compares two string lists by contents.
fn vec_string_eq(a: &Vec<String>, b: &Vec<String>) -> (r: bool)
    ensures
        r == string_seq_eq(a@, b@),
{
    if a.len() != b.len() {
        return false;
    }
    let mut i: usize = 0;
    while i < a.len()
        invariant
            i <= a.len(),
            a@.len() == b@.len(),
            forall|k: int| 0 <= k < i ==> a@[k]@ == b@[k]@,
        decreases a.len() - i,
    {
        if !(a[i] == b[i]) {
            return false;
        }
        i = i + 1;
    }
    true
}

impl PartialEq for Server {
    fn eq(&self, other: &Server) -> (r: bool) {
        self.pid == other.pid && self.name == other.name && self.num == other.num
            && self.label_name == other.label_name
    }
}

impl vstd::std_specs::cmp::PartialEqSpecImpl for Server {
    open spec fn obeys_eq_spec() -> bool {
        true
    }

    open spec fn eq_spec(&self, other: &Server) -> bool {
        server_eq(*self, *other)
    }
}

impl PartialEq for ScoringInfo {
    fn eq(&self, other: &ScoringInfo) -> (r: bool) {
        self.m_server_name == other.m_server_name && self.m_track_name == other.m_track_name
            && self.m_session == other.m_session && self.m_current_et == other.m_current_et
            && self.m_end_et == other.m_end_et && self.m_max_laps == other.m_max_laps
            && self.m_lap_dist == other.m_lap_dist && self.m_num_vehicles == other.m_num_vehicles
            && self.m_game_phase == other.m_game_phase && self.m_yellow_flag_state
            == other.m_yellow_flag_state && self.m_sector_flag == other.m_sector_flag
            && self.m_raining == other.m_raining && self.m_ambient_temp == other.m_ambient_temp
            && self.m_track_temp == other.m_track_temp && self.m_min_path_wetness
            == other.m_min_path_wetness && self.m_max_path_wetness == other.m_max_path_wetness
    }
}

impl vstd::std_specs::cmp::PartialEqSpecImpl for ScoringInfo {
    open spec fn obeys_eq_spec() -> bool {
        true
    }

    open spec fn eq_spec(&self, other: &ScoringInfo) -> bool {
        scoring_eq(*self, *other)
    }
}

impl PartialEq for Vehicle {
    fn eq(&self, other: &Vehicle) -> (r: bool) {
        self.m_id == other.m_id && self.m_driver_name == other.m_driver_name
            && self.m_vehicle_name == other.m_vehicle_name && self.m_total_laps
            == other.m_total_laps && self.m_sector == other.m_sector && self.m_finish_status
            == other.m_finish_status && self.m_lap_dist == other.m_lap_dist && self.m_best_sector1
            == other.m_best_sector1 && self.m_best_sector2 == other.m_best_sector2
            && self.m_best_lap_time == other.m_best_lap_time && self.m_last_sector1
            == other.m_last_sector1 && self.m_last_sector2 == other.m_last_sector2
            && self.m_last_lap_time == other.m_last_lap_time && self.m_cur_sector1
            == other.m_cur_sector1 && self.m_cur_sector2 == other.m_cur_sector2
            && self.m_num_pitstops == other.m_num_pitstops && self.m_is_player
            == other.m_is_player && self.m_control == other.m_control && self.m_in_pits
            == other.m_in_pits && self.m_place == other.m_place && self.m_vehicle_class
            == other.m_vehicle_class && self.m_time_behind_next == other.m_time_behind_next
            && self.m_time_behind_leader == other.m_time_behind_leader && self.m_laps_behind_leader
            == other.m_laps_behind_leader && self.m_in_garage_stall == other.m_in_garage_stall
            && self.m_front_tire_compound_name == other.m_front_tire_compound_name
            && self.m_rear_tire_compound_name == other.m_rear_tire_compound_name
            && self.m_rear_tire_compound_index == other.m_rear_tire_compound_index
            && self.m_front_tire_compound_index == other.m_front_tire_compound_index
            && self.m_fuel == other.m_fuel && self.m_wear == other.m_wear && self.speed
            == other.speed
    }
}

impl vstd::std_specs::cmp::PartialEqSpecImpl for Vehicle {
    open spec fn obeys_eq_spec() -> bool {
        true
    }

    open spec fn eq_spec(&self, other: &Vehicle) -> bool {
        vehicle_eq(*self, *other)
    }
}

impl PartialEq for LiveData {
    fn eq(&self, other: &LiveData) -> (r: bool) {
        self.best_s1 == other.best_s1 && self.best_s2 == other.best_s2 && self.best_s3
            == other.best_s3 && self.best_laptime == other.best_laptime && self.m_scoring_info
            == other.m_scoring_info && self.m_vehicles == other.m_vehicles
            && self.show_ai_fuel_data == other.show_ai_fuel_data && self.show_ai_tire_wear
            == other.show_ai_tire_wear && self.show_class == other.show_class && self.show_vehicle
            == other.show_vehicle && self.show_avg_lap_speed == other.show_avg_lap_speed
            && self.show_mph == other.show_mph && self.server_list == other.server_list
            && vec_string_eq(&self.server_names_list, &other.server_names_list)
    }
}

impl vstd::std_specs::cmp::PartialEqSpecImpl for LiveData {
    open spec fn obeys_eq_spec() -> bool {
        true
    }

    open spec fn eq_spec(&self, other: &LiveData) -> bool {
        live_eq(*self, *other)
    }
}

} // verus!
