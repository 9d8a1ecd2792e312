use correct_bar::{ClockParts, ContextState, CpuStat, HyprState, MemoryState, Workspace};

#[test]
fn parse_u32_accepts_exactly_digit_runs() {
    assert_eq!(correct_bar::parse_u32(b"0"), Some(0));
    assert_eq!(correct_bar::parse_u32(b"4294967295"), Some(u32::MAX));
    assert_eq!(correct_bar::parse_u32(b"4294967296"), None);
    assert_eq!(correct_bar::parse_u32(b""), None);
    assert_eq!(correct_bar::parse_u32(b"12a"), None);
    assert_eq!(correct_bar::parse_u32(b" 12"), None);
    assert_eq!(correct_bar::parse_u32(b"007"), Some(7));
}

#[test]
fn parse_u64_handles_large_counters() {
    assert_eq!(correct_bar::parse_u64(b"18446744073709551615"), Some(u64::MAX));
    assert_eq!(correct_bar::parse_u64(b"18446744073709551616"), None);
    assert_eq!(correct_bar::parse_u64(b"123456789012"), Some(123_456_789_012));
}

#[test]
fn find_byte_reports_first_occurrence() {
    assert_eq!(correct_bar::find_byte(b"a,b,c", b','), Some(1));
    assert_eq!(correct_bar::find_byte(b"abc", b','), None);
}

#[test]
fn event_lines_split_at_the_marker() {
    let r = correct_bar::split_event_line(b"workspacev2>>5,web").unwrap();
    assert_eq!(r.0, b"workspacev2");
    assert_eq!(r.1, b"5,web");
    assert!(correct_bar::split_event_line(b"no marker here").is_none());
}

#[test]
fn workspace_numbers_come_from_the_right_side_of_the_comma() {
    assert_eq!(correct_bar::parse_leading_number(b"5,web"), Some(5));
    assert_eq!(correct_bar::parse_leading_number(b"17"), Some(17));
    assert_eq!(correct_bar::parse_leading_number(b"x,web"), None);
    assert_eq!(correct_bar::parse_trailing_number(b"DP-1,7\n"), Some(7));
    assert_eq!(correct_bar::parse_trailing_number(b"DP-1"), None);
}

#[test]
fn focus_marks_exactly_one_workspace() {
    let mut state = HyprState::new();
    state.workspaces.push(Workspace { id: 1, focused: false });
    state.workspaces.push(Workspace { id: 2, focused: true });
    state.workspaces.push(Workspace { id: 3, focused: false });
    assert!(state.focus_workspace(3));
    assert_eq!(
        state.workspaces,
        vec![
            Workspace { id: 1, focused: false },
            Workspace { id: 2, focused: false },
            Workspace { id: 3, focused: true },
        ]
    );
    assert!(!state.focus_workspace(9), "unknown workspaces report not found");
}

#[test]
fn destroy_drops_only_the_named_workspace() {
    let mut state = HyprState::new();
    state.workspaces.push(Workspace { id: 1, focused: false });
    state.workspaces.push(Workspace { id: 2, focused: true });
    state.workspaces.push(Workspace { id: 3, focused: false });
    state.destroy_workspace(2);
    assert_eq!(
        state.workspaces,
        vec![
            Workspace { id: 1, focused: false },
            Workspace { id: 3, focused: false },
        ]
    );
}

#[test]
fn cpu_line_parses_its_ten_counters() {
    // The aggregate line has a double space after the label.
    let c = CpuStat::parse_from(b"cpu  10 20 30 40 50 60 70 80 90 100").unwrap();
    assert_eq!(
        c,
        CpuStat {
            user: 10,
            nice: 20,
            system: 30,
            idle: 40,
            iowait: 50,
            irq: 60,
            softirq: 70,
            steal: 80,
            guest: 90,
            guest_nice: 100,
        }
    );
    let c2 = CpuStat::parse_from(b"cpu0 1 2 3 4 5 6 7 8 9 10").unwrap();
    assert_eq!(c2.user, 1);
    assert_eq!(c2.guest_nice, 10);
    assert!(CpuStat::parse_from(b"cpu 1 2 3").is_none());
    assert!(CpuStat::parse_from(b"").is_none());
    assert!(CpuStat::parse_from(b"cpu 1 2 3 4 5 6 7 8 9 x").is_none());
}

#[test]
fn cpu_total_excludes_idle_time() {
    let c = CpuStat::parse_from(b"cpu 10 20 30 40 50 60 70 80 90 100").unwrap();
    assert_eq!(c.total(), 10 + 20 + 30 + 60 + 70);
}

#[test]
fn cpu_usage_is_the_busy_share() {
    assert_eq!(correct_bar::cpu_usage_percent(0, 0), 0);
    assert_eq!(correct_bar::cpu_usage_percent(50, 50), 50);
    assert_eq!(correct_bar::cpu_usage_percent(1, 2), 33);
    assert_eq!(correct_bar::cpu_usage_percent(7, 0), 100);
}

#[test]
fn cpu_grid_packs_eight_rows_per_column() {
    assert_eq!(correct_bar::cpu_grid(1), (1, 1));
    assert_eq!(correct_bar::cpu_grid(8), (8, 1));
    assert_eq!(correct_bar::cpu_grid(9), (5, 2));
    assert_eq!(correct_bar::cpu_grid(16), (8, 2));
    assert_eq!(correct_bar::cpu_grid(24), (8, 3));
}

#[test]
fn meminfo_line_yields_its_kibibyte_count() {
    assert_eq!(
        correct_bar::parse_meminfo_value(b"MemTotal:       32658964 kB"),
        Some(32_658_964)
    );
    assert_eq!(correct_bar::parse_meminfo_value(b"MemTotal: 123"), None);
    assert_eq!(correct_bar::parse_meminfo_value(b"HugePages_Total:       0"), None);
    assert_eq!(correct_bar::parse_meminfo_value(b"no colon"), None);
}

#[test]
fn memory_state_scales_to_mebibytes() {
    let m = MemoryState::from_kb(32_658_964, 20_000_000);
    assert_eq!(m.total_mb, 31_893);
    assert_eq!(m.used_mb, (32_658_964 - 20_000_000) / 1024);
    assert_eq!(m.avail_mb, 19_531);
}

#[test]
fn clock_text_spells_the_reading() {
    let p = ClockParts {
        year: 2026,
        month: 10,
        day: 9,
        weekday: 3,
        hour: 7,
        minute: 5,
        second: 59,
        utc_hour: 14,
        utc_minute: 5,
        utc_second: 59,
    };
    let text = correct_bar::clock_text(&p);
    assert_eq!(text, b"Thu, 2026-10-09 at 07:05:59 or 14:05:59".to_vec());
}

#[test]
fn clock_line_now_reads_the_real_clock() {
    // Runs the trusted clock reading: whatever the wall clock says,
    // the line has the fixed shape.
    let text = correct_bar::clock_line_now().expect("the year fits four digits");
    assert_eq!(text.len(), 39);
    assert_eq!(text[3], b',');
    assert_eq!(text[9], b'-');
    assert_eq!(text[12], b'-');
    assert_eq!(&text[15..19], b" at ");
    assert_eq!(text[21], b':');
    assert_eq!(text[24], b':');
    assert_eq!(&text[27..31], b" or ");
    assert!(text[5].is_ascii_digit() && text[38].is_ascii_digit());
}

#[test]
fn context_state_codes_map_like_the_c_api() {
    assert_eq!(ContextState::from_code(0), ContextState::Unconnected);
    assert_eq!(ContextState::from_code(4), ContextState::Ready);
    assert_eq!(ContextState::from_code(6), ContextState::Terminated);
    assert_eq!(ContextState::from_code(42), ContextState::Unknown);
    assert!(ContextState::Ready.is_settled());
    assert!(ContextState::Failed.is_settled());
    assert!(!ContextState::Connecting.is_settled());
}
