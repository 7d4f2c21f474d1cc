use kalendarium::{kalendarium, Kalendarium, OutOfRangeError};

#[test]
fn test_kalendarium_dates() {
    // The day of "Wish World" S2:E7
    let kal: Kalendarium = Kalendarium::new("2025", "5", "24").unwrap();
    assert_eq!(kal.roman_year(), "MMDCCLXXVIII a.u.c.");
    assert_eq!(kal.roman_day_of_week(), "diēs Sāturnī");
    assert_eq!(kal.roman_day(), "ante diem IX Kal. Iun.");
    assert_eq!(
        kal.to_str(),
        "ante diem IX Kal. Iun. MMDCCLXXVIII a.u.c. diēs Sāturnī"
    );

    // Star Wars premiere day
    let kal: Kalendarium = Kalendarium::new("1977", "5", "25").unwrap();
    assert_eq!(kal.roman_year(), "MMDCCXXX a.u.c.");
    assert_eq!(kal.roman_day_of_week(), "diēs Mercuriī");
    assert_eq!(kal.roman_day(), "ante diem VIII Kal. Iun.");
    assert_eq!(
        kal.to_str(),
        "ante diem VIII Kal. Iun. MMDCCXXX a.u.c. diēs Mercuriī"
    );

    // Declaration of Independence signed
    let kal: Kalendarium = Kalendarium::new("1776", "7", "4").unwrap();
    assert_eq!(kal.roman_year(), "MMDXXIX a.u.c.");
    assert_eq!(kal.roman_day_of_week(), "diēs Iovis");
    assert_eq!(kal.roman_day(), "ante diem IV Nōn. Iul.");
    assert_eq!(
        kal.to_str(),
        "ante diem IV Nōn. Iul. MMDXXIX a.u.c. diēs Iovis"
    );

    // The fall of Constantinople
    let kal: Kalendarium = Kalendarium::new("1453", "5", "29").unwrap();
    assert_eq!(kal.roman_year(), "MMCCVI a.u.c.");
    assert_eq!(kal.roman_day_of_week(), "diēs Mārtis");
    assert_eq!(kal.roman_day(), "ante diem IV Kal. Iun.");
    assert_eq!(
        kal.to_str(),
        "ante diem IV Kal. Iun. MMCCVI a.u.c. diēs Mārtis"
    );

    // The battle of Hastings. Oct 14, 1066 9am Saturday
    let kal: Kalendarium = Kalendarium::new("1066", "10", "14").unwrap();
    assert_eq!(kal.roman_year(), "MDCCCXIX a.u.c.");
    assert_eq!(kal.roman_day_of_week(), "diēs Sāturnī");
    assert_eq!(kal.roman_day(), "prīdiē Īdūs Octobrās");
    assert_eq!(
        kal.to_str(),
        "prīdiē Īdūs Octobrās MDCCCXIX a.u.c. diēs Sāturnī"
    );

    // Leap day in 1000 CE (Julian)
    let kal: Kalendarium = Kalendarium::new("1000", "2", "25").unwrap();
    assert_eq!(kal.roman_year(), "MDCCLIII a.u.c.");
    assert_eq!(kal.roman_day_of_week(), "diēs Sōlis");
    assert_eq!(kal.roman_day(), "ante diem bis VI Kal. Mart.");
    assert_eq!(
        kal.to_str(),
        "ante diem bis VI Kal. Mart. MDCCLIII a.u.c. diēs Sōlis"
    );

    // Charlemagne coronated on xmas day 800 CE
    let kal: Kalendarium = Kalendarium::new("800", "12", "25").unwrap();
    assert_eq!(kal.roman_year(), "MDLIII a.u.c.");
    assert_eq!(kal.roman_day_of_week(), "diēs Veneris");
    assert_eq!(kal.roman_day(), "ante diem bis VI Kal. Mart.");
    assert_eq!(kal.roman_festival_day(), "Dīēs Nātālis Sōlis Invictī ");
    assert_eq!(
        kal.to_str(),
        "ante diem bis VI Kal. Mart. MDLIII a.u.c. Dīēs Nātālis Sōlis Invictī diēs Veneris"
    );

    // New Years day of 1 BC
    let kal: Kalendarium = Kalendarium::new("1", "1", "1").unwrap();
    assert_eq!(kal.roman_year(), "DCCLIV a.u.c.");
    assert_eq!(kal.roman_day_of_week(), "diēs Sāturnī");
    assert_eq!(kal.roman_day(), "Kalendae Iānuāriae");
    assert_eq!(
        kal.to_str(),
        "Kalendae Iānuāriae DCCLIV a.u.c. diēs Sāturnī"
    );

    // Last day of -1 BCE
    let kal: Kalendarium = Kalendarium::new("-1", "12", "31").unwrap();
    assert_eq!(kal.roman_year(), "DCCLIII a.u.c.");
    assert_eq!(kal.roman_day_of_week(), "diēs Veneris");
    assert_eq!(kal.roman_day(), "prīdiē Kalendae Iānuāriās");
    assert_eq!(
        kal.to_str(),
        "prīdiē Kalendae Iānuāriās DCCLIII a.u.c. diēs Veneris"
    );

    //The day Julius Caesar was assassinated The Ides of March 44 BCE
    let kal: Kalendarium = Kalendarium::new("-43", "03", "15").unwrap();
    assert_eq!(kal.roman_year(), "DCCXI a.u.c.");
    assert_eq!(kal.roman_day_of_week(), "diēs Iovis");
    assert_eq!(kal.roman_day(), "Īdūs Mārtiae");
    assert_eq!(kal.to_str(), "Īdūs Mārtiae DCCXI a.u.c. diēs Iovis");

    // Traditional founding day of Rome
    let kal: Kalendarium = Kalendarium::new("-753", "4", "21").unwrap();
    assert_eq!(kal.roman_year(), "I a.u.c.");
    assert_eq!(kal.roman_day_of_week(), "diēs Lūnae");
    assert_eq!(kal.roman_day(), "ante diem XI Kal. Māi.");
    assert_eq!(kal.roman_festival_day(), "Parilia ");
    assert_eq!(
        kal.to_str(),
        "ante diem XI Kal. Māi. I a.u.c. Parilia diēs Lūnae"
    );

    // The year before Rome was founded
    assert!(matches!(
        Kalendarium::new("-755", "1", "3"),
        Err(OutOfRangeError)
    ));
}

#[test]
fn constructor_keeps_the_fields() {
    let kal = Kalendarium::new("2025", "5", "24").unwrap();
    assert_eq!(kal, Kalendarium { year: 2025, month: 5, day: 24, weekday: 6 });
    let kal = Kalendarium::new("-43", "+3", "015").unwrap();
    assert_eq!(kal, Kalendarium { year: -43, month: 3, day: 15, weekday: 4 });
}

#[test]
fn constructor_rejects() {
    assert_eq!(Kalendarium::new("-755", "1", "3"), Err(OutOfRangeError));
    assert_eq!(Kalendarium::new("4999247", "1", "1"), Err(OutOfRangeError));
    assert_eq!(Kalendarium::new("2025", "2", "30"), Err(OutOfRangeError));
    assert_eq!(Kalendarium::new("2025", "13", "1"), Err(OutOfRangeError));
    assert_eq!(Kalendarium::new("2025", "0", "1"), Err(OutOfRangeError));
    assert_eq!(Kalendarium::new("2025", "5", "0"), Err(OutOfRangeError));
    assert_eq!(Kalendarium::new("2025", "-5", "1"), Err(OutOfRangeError));
    assert_eq!(Kalendarium::new("MMXXV", "5", "1"), Err(OutOfRangeError));
    assert_eq!(Kalendarium::new("", "5", "1"), Err(OutOfRangeError));
    assert_eq!(Kalendarium::new("-", "5", "1"), Err(OutOfRangeError));
    assert_eq!(Kalendarium::new("99999999999", "5", "1"), Err(OutOfRangeError));
    // the days the reform skipped
    assert_eq!(Kalendarium::new("1582", "10", "10"), Err(OutOfRangeError));
}

#[test]
fn earliest_and_latest_years() {
    let kal = Kalendarium::new("-754", "1", "1").unwrap();
    assert_eq!(kal.roman_year(), "N a.u.c.");
    let kal = Kalendarium::new("4999246", "1", "1").unwrap();
    assert_eq!(
        kal.roman_year(),
        "M\u{305}M\u{305}M\u{305}M\u{305}C\u{305}M\u{305}X\u{305}C\u{305}I\u{305}X\u{305}CMXCIX a.u.c."
    );
}

#[test]
fn phrases_on_given_fields() {
    let kal = Kalendarium { year: 2025, month: 5, day: 24, weekday: 6 };
    assert_eq!(kal.roman_day(), "ante diem IX Kal. Iun.");
    assert_eq!(kal.roman_year(), "MMDCCLXXVIII a.u.c.");
    assert_eq!(kal.roman_festival_day(), "");
    assert_eq!(kalendarium(&kal), "ante diem IX Kal. Iun. MMDCCLXXVIII a.u.c. diēs Sāturnī");

    // Kalends, Nones, Ides and the days before them
    let day = |month: u32, day: u32| Kalendarium { year: 2023, month, day, weekday: 0 }.roman_day();
    assert_eq!(day(3, 1), "Kalendae Mārtiae");
    assert_eq!(day(3, 6), "prīdiē Nōnās Mārtiās");
    assert_eq!(day(3, 7), "Nōnae Mārtiae");
    assert_eq!(day(3, 2), "ante diem VI Nōn. Mārt.");
    assert_eq!(day(3, 14), "prīdiē Īdūs Mārtiās");
    assert_eq!(day(3, 8), "ante diem VIII Īd. Mārt.");
    assert_eq!(day(4, 13), "Īdūs Aprīlis");
    assert_eq!(day(4, 3), "ante diem III Nōn. Apr.");
    assert_eq!(day(12, 31), "prīdiē Kalendae Iānuāriās");
    assert_eq!(day(12, 16), "ante diem XVII Kal. Iān.");
    assert_eq!(day(2, 28), "prīdiē Kalendae Mārtiās");
    assert_eq!(day(2, 14), "ante diem XVI Kal. Mārt.");
}

#[test]
fn leap_years_count_the_extra_day() {
    let day = |year: i32, month: u32, day: u32| Kalendarium { year, month, day, weekday: 0 }.roman_day();
    assert_eq!(day(2024, 2, 24), "ante diem VI Kal. Mārt.");
    assert_eq!(day(2024, 2, 25), "ante diem bis VI Kal. Mart.");
    assert_eq!(day(2024, 2, 26), "ante diem V Kal. Mārt.");
    assert_eq!(day(2024, 2, 29), "prīdiē Kalendae Mārtiās");
    assert_eq!(day(2023, 2, 25), "ante diem V Kal. Mārt.");
    // 1900 is no leap year, 2000 and 1000 are
    assert_eq!(day(1900, 2, 25), "ante diem V Kal. Mārt.");
    assert_eq!(day(2000, 2, 25), "ante diem bis VI Kal. Mart.");
    assert_eq!(day(1000, 2, 25), "ante diem bis VI Kal. Mart.");
    // the extra day counts after the 25th in every month of a leap year
    assert_eq!(day(2024, 5, 26), "ante diem VIII Kal. Iun.");
}

#[test]
fn festivals_and_weekdays() {
    let kal = Kalendarium { year: 2023, month: 12, day: 17, weekday: 0 };
    assert_eq!(kal.roman_festival_day(), "prīmus diēs Saturnālium ");
    assert_eq!(kal.roman_day_of_week(), "diēs Sōlis");
    let kal = Kalendarium { year: 2023, month: 6, day: 24, weekday: 6 };
    assert_eq!(kal.roman_festival_day(), "Fors Fortūna ");
    assert_eq!(kal.to_str(), "ante diem VIII Kal. Iul. MMDCCLXXVI a.u.c. Fors Fortūna diēs Sāturnī");
    let kal = Kalendarium { year: 2023, month: 6, day: 25, weekday: 0 };
    assert_eq!(kal.roman_festival_day(), "");
}

#[test]
fn debug_lists_the_fields() {
    let kal = Kalendarium::new("-43", "3", "15").unwrap();
    assert_eq!(kal.debug(), "day: 15, month: 3, year: -43, weekday: 4");
}
