use race_board::api::LiveData;
use race_board::api::ScoringInfo;
use race_board::api::Vehicle;
use race_board::api::CONTROL_HUMAN;
use race_board::render::format_drivers;
use race_board::render::parse_hex_colour;
use race_board::render::player_order;
use race_board::render::render;
use race_board::render::ConfigEntry;
use race_board::render::DisplayConfig;
use race_board::render::ServerDisplayConfig;
use race_board::render::DEFAULT_COLOUR;

fn vehicle(name: &str, place: i32, control: i32, laps: i32, last_ms: i64, best_ms: i64) -> Vehicle {
    Vehicle {
        m_id: place,
        m_driver_name: name.to_string(),
        m_vehicle_name: "GT".to_string(),
        m_total_laps: laps,
        m_sector: 0,
        m_finish_status: 0,
        m_lap_dist: 0,
        m_best_sector1: 0,
        m_best_sector2: 0,
        m_best_lap_time: best_ms,
        m_last_sector1: 0,
        m_last_sector2: 0,
        m_last_lap_time: last_ms,
        m_cur_sector1: 0,
        m_cur_sector2: 0,
        m_num_pitstops: "0".to_string(),
        m_is_player: 0,
        m_control: control,
        m_in_pits: 0,
        m_place: place,
        m_vehicle_class: "GT".to_string(),
        m_time_behind_next: 0,
        m_time_behind_leader: 0,
        m_laps_behind_leader: 0,
        m_in_garage_stall: 0,
        m_front_tire_compound_name: "soft".to_string(),
        m_rear_tire_compound_name: "soft".to_string(),
        m_rear_tire_compound_index: 0,
        m_front_tire_compound_index: 0,
        m_fuel: 5000,
        m_wear: vec![1000, 1000, 1000, 1000],
        speed: 0,
    }
}

fn scoring(server: &str, track: &str, track_temp: i64, ambient: i64, et: i64, end: i64) -> ScoringInfo {
    ScoringInfo {
        m_server_name: server.to_string(),
        m_track_name: track.to_string(),
        m_session: 5,
        m_current_et: et,
        m_end_et: end,
        m_max_laps: 30,
        m_lap_dist: 5_000_000,
        m_num_vehicles: 0,
        m_game_phase: 5,
        m_yellow_flag_state: 0,
        m_sector_flag: vec![0, 0, 0],
        m_raining: 0,
        m_ambient_temp: ambient,
        m_track_temp: track_temp,
        m_min_path_wetness: 0,
        m_max_path_wetness: 0,
    }
}

fn snapshot(server: &str, vehicles: Vec<Vehicle>) -> LiveData {
    LiveData {
        best_s1: 0,
        best_s2: 0,
        best_s3: 0,
        best_laptime: 0,
        m_scoring_info: scoring(server, "Spa", 2000, 1800, 125_000, 2_400_000),
        m_vehicles: vehicles,
        show_ai_fuel_data: 0,
        show_ai_tire_wear: 0,
        show_class: 1,
        show_vehicle: 1,
        show_avg_lap_speed: 0,
        show_mph: 0,
        server_list: vec![],
        server_names_list: vec![],
    }
}

#[test]
fn hex_colour_parses() {
    assert_eq!(parse_hex_colour(&"ff0000".to_string()), Some(0xff0000));
    assert_eq!(parse_hex_colour(&"00FF7f".to_string()), Some(0x00ff7f));
    assert_eq!(parse_hex_colour(&"0".to_string()), Some(0));
}

#[test]
fn hex_colour_rejects_junk() {
    assert_eq!(parse_hex_colour(&"".to_string()), None);
    assert_eq!(parse_hex_colour(&"zzz".to_string()), None);
    assert_eq!(parse_hex_colour(&"12 34".to_string()), None);
    assert_eq!(parse_hex_colour(&"-1".to_string()), None);
}

#[test]
fn hex_colour_overflow() {
    assert_eq!(parse_hex_colour(&"123456789".to_string()), None);
    assert_eq!(parse_hex_colour(&"ffffffff".to_string()), Some(u32::MAX));
    assert_eq!(parse_hex_colour(&"0000000001".to_string()), Some(1));
}

#[test]
fn drivers_empty_list_is_none() {
    assert_eq!(format_drivers(&vec![]), "None");
}

#[test]
fn drivers_without_humans_is_none() {
    let vehicles = vec![vehicle("Bot A", 1, 1, 10, 61_000, 60_000)];
    assert_eq!(format_drivers(&vehicles), "None");
}

#[test]
fn drivers_sorted_by_place() {
    let vehicles = vec![
        vehicle("Charlie", 3, CONTROL_HUMAN, 11, 66_500, 64_100),
        vehicle("Alice", 1, CONTROL_HUMAN, 12, 65_321, 63_000),
        vehicle("Bot", 2, 1, 12, 64_000, 62_000),
        vehicle("Bob", 2, CONTROL_HUMAN, 12, 64_500, 62_500),
    ];
    let expected = "* Alice\n  * Laps: 12\n  * Last Lap: 1:05.321\n  * Fastest Lap: 1:03.000\n* Bob\n  * Laps: 12\n  * Last Lap: 1:04.500\n  * Fastest Lap: 1:02.500\n* Charlie\n  * Laps: 11\n  * Last Lap: 1:06.500\n  * Fastest Lap: 1:04.100";
    assert_eq!(format_drivers(&vehicles), expected);
}

#[test]
fn drivers_ties_keep_input_order() {
    let vehicles = vec![
        vehicle("First", 1, CONTROL_HUMAN, 5, 0, 0),
        vehicle("Second", 1, CONTROL_HUMAN, 5, 0, 0),
    ];
    let expected = "* First\n  * Laps: 5\n  * Last Lap: --:--.---\n  * Fastest Lap: --:--.---\n* Second\n  * Laps: 5\n  * Last Lap: --:--.---\n  * Fastest Lap: --:--.---";
    assert_eq!(format_drivers(&vehicles), expected);
    assert_eq!(player_order(&vehicles), vec![0, 1]);
}

#[test]
fn player_order_filters_and_sorts() {
    let vehicles = vec![
        vehicle("D", 4, CONTROL_HUMAN, 1, 0, 0),
        vehicle("Bot", 1, 0, 1, 0, 0),
        vehicle("B", 2, CONTROL_HUMAN, 1, 0, 0),
    ];
    assert_eq!(player_order(&vehicles), vec![2, 0]);
}

#[test]
fn render_uses_configured_overrides() {
    let snapshots = vec![snapshot("GSMC", vec![])];
    let config = DisplayConfig {
        entries: vec![ConfigEntry {
            server_name: "GSMC".to_string(),
            config: ServerDisplayConfig {
                display_name: Some("Downforce Cup".to_string()),
                colour_hex: Some("ff8800".to_string()),
                thumbnail: Some("https://example.invalid/cup.png".to_string()),
            },
        }],
    };
    let panels = render(&snapshots, &config);
    assert_eq!(panels.len(), 1);
    let p = &panels[0];
    assert_eq!(p.title, "Downforce Cup");
    assert_eq!(p.colour, 0xff8800);
    assert_eq!(p.thumbnail.as_deref(), Some("https://example.invalid/cup.png"));
    assert_eq!(p.fields.len(), 5);
    assert_eq!(p.fields[0].label, "Track");
    assert_eq!(p.fields[0].text, "Spa");
    assert!(!p.fields[0].inline);
    assert_eq!(p.fields[1].label, "Drivers");
    assert_eq!(p.fields[1].text, "None");
    assert!(!p.fields[1].inline);
    assert_eq!(p.fields[2].label, "Track temperature");
    assert_eq!(p.fields[2].text, "20.00°C / 68°F");
    assert!(p.fields[2].inline);
    assert_eq!(p.fields[3].label, "Ambient");
    assert_eq!(p.fields[3].text, "18.00°C / 64°F");
    assert!(p.fields[3].inline);
    assert_eq!(p.fields[4].label, "Elapsed / End time");
    assert_eq!(p.fields[4].text, "2:05 / 40:00");
    assert!(!p.fields[4].inline);
}

#[test]
fn render_falls_back_without_config() {
    let snapshots = vec![snapshot("GSME", vec![])];
    let config = DisplayConfig { entries: vec![] };
    let panels = render(&snapshots, &config);
    assert_eq!(panels.len(), 1);
    assert_eq!(panels[0].title, "GSME");
    assert_eq!(panels[0].colour, DEFAULT_COLOUR);
    assert_eq!(panels[0].thumbnail, None);
}

#[test]
fn render_falls_back_on_bad_colour() {
    let snapshots = vec![snapshot("GSME", vec![])];
    let config = DisplayConfig {
        entries: vec![ConfigEntry {
            server_name: "GSME".to_string(),
            config: ServerDisplayConfig {
                display_name: None,
                colour_hex: Some("not-a-colour".to_string()),
                thumbnail: None,
            },
        }],
    };
    let panels = render(&snapshots, &config);
    assert_eq!(panels[0].colour, DEFAULT_COLOUR);
    assert_eq!(panels[0].title, "GSME");
}

#[test]
fn render_masks_colour_to_24_bits() {
    let snapshots = vec![snapshot("GSME", vec![])];
    let config = DisplayConfig {
        entries: vec![ConfigEntry {
            server_name: "GSME".to_string(),
            config: ServerDisplayConfig {
                display_name: None,
                colour_hex: Some("ffffffff".to_string()),
                thumbnail: None,
            },
        }],
    };
    let panels = render(&snapshots, &config);
    assert_eq!(panels[0].colour, 0xffffff);
}

#[test]
fn render_one_panel_per_snapshot_in_order() {
    let snapshots = vec![snapshot("A", vec![]), snapshot("B", vec![])];
    let config = DisplayConfig { entries: vec![] };
    let panels = render(&snapshots, &config);
    assert_eq!(panels.len(), 2);
    assert_eq!(panels[0].title, "A");
    assert_eq!(panels[1].title, "B");
}
