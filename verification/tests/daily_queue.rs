use ankicode::daily_queue::{
    local_date_at, AssignmentError, DailyAssignment, DailyAssignmentItem, DayWindow, DayWindowError,
};

const SECONDS_PER_DAY: i64 = 86_400;

#[test]
fn daily_queue_fixed_offset_day_window_handles_local_boundaries() {
    let before_midnight_utc = 1_704_067_199;
    let west = DayWindow::from_utc_timestamp(before_midnight_utc, -300).unwrap();
    assert_eq!(west.local_date(), "2023-12-31");
    assert_eq!(west.end_utc() - west.start_utc(), SECONDS_PER_DAY);
    assert!(west.start_utc() <= before_midnight_utc);
    assert!(before_midnight_utc < west.end_utc());

    let east = DayWindow::from_utc_timestamp(before_midnight_utc, 330).unwrap();
    assert_eq!(east.local_date(), "2024-01-01");
}

#[test]
fn part2_fixed_offset_day_window_handles_local_boundaries() {
    let before_midnight_utc = 1_704_067_199;
    let west = DayWindow::from_utc_timestamp(before_midnight_utc, -300).unwrap();
    assert_eq!(west.local_date(), "2023-12-31");
    assert_eq!(west.end_utc() - west.start_utc(), 86_400);
    assert!(west.start_utc() <= before_midnight_utc);
    assert!(before_midnight_utc < west.end_utc());

    let east = DayWindow::from_utc_timestamp(before_midnight_utc, 330).unwrap();
    assert_eq!(east.local_date(), "2024-01-01");
}

#[test]
fn fixed_offset_window_exact_bounds_and_errors() {
    let west = DayWindow::from_utc_timestamp(1_704_067_199, -300).unwrap();
    assert_eq!(west.start_utc(), 1_703_998_800);
    assert_eq!(west.end_utc(), 1_704_085_200);
    let utc = DayWindow::from_utc_timestamp(1_704_067_200, 0).unwrap();
    assert_eq!(utc.local_date(), "2024-01-01");
    assert_eq!(utc.start_utc(), 1_704_067_200);
    assert_eq!(utc.end_utc(), 1_704_153_600);
    assert_eq!(
        DayWindow::from_utc_timestamp(1_704_067_200, 1_440),
        Err(DayWindowError::InvalidOffset)
    );
    assert_eq!(
        DayWindow::from_utc_timestamp(1_704_067_200, i32::MAX),
        Err(DayWindowError::InvalidOffset)
    );
    assert_eq!(
        DayWindow::from_utc_timestamp(i64::MAX, 0),
        Err(DayWindowError::InvalidTimestamp)
    );
    assert_eq!(
        DayWindow::from_utc_timestamp(3_600, 0),
        Err(DayWindowError::InvalidBounds)
    );
}

#[test]
fn total_cost_does_not_overflow() {
    let assignment = DailyAssignment {
        local_date: "2024-01-01".to_owned(),
        items: (0..300)
            .map(|position| DailyAssignmentItem {
                problem_id: i64::from(position),
                position: u8::try_from(position % 256).unwrap(),
                cost: 2,
            })
            .collect(),
    };
    assert_eq!(assignment.total_cost(), 600);
}

#[test]
fn total_cost_exceeding_u16_is_safe() {
    let assignment = DailyAssignment {
        local_date: "2024-01-01".to_owned(),
        items: (0..40_000)
            .map(|position| DailyAssignmentItem {
                problem_id: i64::from(position),
                position: u8::try_from(position % 256).unwrap(),
                cost: 2,
            })
            .collect(),
    };
    assert_eq!(assignment.total_cost(), 80_000);
}

#[test]
fn civil_window_accepts_23_24_and_25_hour_days_only() {
    assert!(DayWindow::new("2024-03-10", 1, 1 + 23 * 3_600).is_ok());
    assert!(DayWindow::new("2024-03-11", 1, 1 + 24 * 3_600).is_ok());
    assert!(DayWindow::new("2024-11-03", 1, 1 + 25 * 3_600).is_ok());
    assert!(DayWindow::new("2024-01-01", 0, 24 * 3_600).is_err());
    assert!(DayWindow::new("2024-01-01", 1, 1 + 22 * 3_600).is_err());
    assert!(DayWindow::new("2024-01-01", 1, 1 + 26 * 3_600).is_err());
}

#[test]
fn civil_window_requires_a_canonical_iso_date() {
    assert_eq!(
        DayWindow::new("2024-1-01", 1, 1 + 86_400),
        Err(DayWindowError::InvalidDate)
    );
    assert_eq!(
        DayWindow::new("2024-02-30", 1, 1 + 86_400),
        Err(DayWindowError::InvalidDate)
    );
    assert_eq!(
        DayWindow::new("2024/01/01", 1, 1 + 86_400),
        Err(DayWindowError::InvalidDate)
    );
    assert_eq!(
        DayWindow::new("2024-01-01", -5, 86_395),
        Err(DayWindowError::InvalidBounds)
    );
    let window = DayWindow::new("2024-02-29", 7, 7 + 86_400).unwrap();
    assert_eq!(window.local_date(), "2024-02-29");
    assert_eq!(window.start_utc(), 7);
    assert_eq!(window.end_utc(), 86_407);
}

#[test]
fn iana_timezone_constructor_handles_dst_boundaries() {
    let spring = DayWindow::from_local_date("2024-03-10", "America/New_York").unwrap();
    assert_eq!(spring.end_utc() - spring.start_utc(), 23 * 3_600);

    let fall = DayWindow::from_local_date("2024-11-03", "America/New_York").unwrap();
    assert_eq!(fall.end_utc() - fall.start_utc(), 25 * 3_600);

    assert!(matches!(
        DayWindow::from_local_date("2024-03-10", "Not/A_Zone"),
        Err(DayWindowError::InvalidTimeZone(_))
    ));
}

#[test]
fn iana_window_errors_carry_the_zone() {
    assert_eq!(
        DayWindow::from_local_date("2024-03-10", "Not/A_Zone"),
        Err(DayWindowError::InvalidTimeZone("Not/A_Zone".to_owned()))
    );
    assert_eq!(
        DayWindow::from_local_date("2024-3-10", "UTC"),
        Err(DayWindowError::InvalidDate)
    );
    let utc = DayWindow::from_local_date("2024-06-02", "UTC").unwrap();
    assert_eq!(utc.start_utc(), 1_717_286_400);
    assert_eq!(utc.end_utc(), 1_717_372_800);
    let tokyo = DayWindow::from_local_date("2024-06-02", "Asia/Tokyo").unwrap();
    assert_eq!(tokyo.start_utc(), 1_717_286_400 - 9 * 3_600);
}

#[test]
fn half_hour_dst_windows_are_supported() {
    let spring = DayWindow::from_local_date("2024-10-06", "Australia/Lord_Howe").unwrap();
    assert_eq!(spring.end_utc() - spring.start_utc(), 23 * 3_600 + 1_800);

    let fall = DayWindow::from_local_date("2024-04-07", "Australia/Lord_Howe").unwrap();
    assert_eq!(fall.end_utc() - fall.start_utc(), 24 * 3_600 + 1_800);

    assert!(DayWindow::new("2024-10-06", 1, 1 + 23 * 3_600 + 1_800).is_ok());
    assert!(DayWindow::new("2024-04-07", 1, 1 + 24 * 3_600 + 1_800).is_ok());
    assert!(DayWindow::new("2024-10-06", 1, 1 + 23 * 3_600 + 1).is_err());
}

#[test]
fn assignment_validation_enforces_positions_costs_and_budget() {
    let assignment = DailyAssignment {
        local_date: "2024-01-01".to_owned(),
        items: vec![
            DailyAssignmentItem {
                problem_id: 1,
                position: 0,
                cost: 1,
            },
            DailyAssignmentItem {
                problem_id: 2,
                position: 2,
                cost: 2,
            },
        ],
    };
    assert!(matches!(
        assignment.validate(),
        Err(AssignmentError::NoncontiguousPosition { .. })
    ));

    let illegal_cost = DailyAssignment {
        local_date: "2024-01-01".to_owned(),
        items: vec![DailyAssignmentItem {
            problem_id: 1,
            position: 0,
            cost: 3,
        }],
    };
    assert!(matches!(
        illegal_cost.validate(),
        Err(AssignmentError::InvalidCost(3))
    ));

    let over_budget = DailyAssignment {
        local_date: "2024-01-01".to_owned(),
        items: vec![
            DailyAssignmentItem {
                problem_id: 1,
                position: 0,
                cost: 1,
            },
            DailyAssignmentItem {
                problem_id: 2,
                position: 1,
                cost: 2,
            },
        ],
    };
    assert!(matches!(
        over_budget.validate(),
        Err(AssignmentError::BudgetExceeded(3))
    ));
}

#[test]
fn assignment_validation_details() {
    let empty = DailyAssignment {
        local_date: "2024-01-01".to_owned(),
        items: vec![],
    };
    assert_eq!(empty.validate(), Ok(()));
    let one_medium = DailyAssignment {
        local_date: "2024-01-01".to_owned(),
        items: vec![DailyAssignmentItem {
            problem_id: 9,
            position: 0,
            cost: 2,
        }],
    };
    assert_eq!(one_medium.validate(), Ok(()));
    let shifted = DailyAssignment {
        local_date: "2024-01-01".to_owned(),
        items: vec![DailyAssignmentItem {
            problem_id: 9,
            position: 1,
            cost: 1,
        }],
    };
    assert_eq!(
        shifted.validate(),
        Err(AssignmentError::NoncontiguousPosition {
            expected: 0,
            actual: 1
        })
    );
    let many = DailyAssignment {
        local_date: "2024-01-01".to_owned(),
        items: (0..300)
            .map(|position| DailyAssignmentItem {
                problem_id: i64::from(position),
                position: u8::try_from(position % 256).unwrap(),
                cost: 1,
            })
            .collect(),
    };
    assert_eq!(many.validate(), Err(AssignmentError::BudgetExceeded(u32::MAX)));
}

#[test]
fn local_date_follows_the_zone_at_the_instant() {
    assert_eq!(local_date_at("UTC", 0), Ok("1970-01-01".to_owned()));
    assert_eq!(local_date_at("America/New_York", 0), Ok("1969-12-31".to_owned()));
    // 2023-11-14 22:13:20 UTC is already 03:43 on the 15th in Kolkata (+05:30).
    assert_eq!(local_date_at("Asia/Kolkata", 1_700_000_000), Ok("2023-11-15".to_owned()));
    assert_eq!(local_date_at("UTC", 1_700_000_000), Ok("2023-11-14".to_owned()));
}

#[test]
fn local_date_refuses_unknown_zones_and_unrepresentable_instants() {
    assert_eq!(
        local_date_at("Mars/Olympus_Mons", 0),
        Err(DayWindowError::InvalidTimeZone("Mars/Olympus_Mons".to_owned()))
    );
    assert_eq!(local_date_at("UTC", i64::MAX), Err(DayWindowError::InvalidTimestamp));
}
