use smartfan::tui::app::App;
use smartfan::tui::app::Key;
use smartfan::tui::app::Signals;
use smartfan::tui::app::HISTORY_CAP;
use smartfan::Level;
use smartfan::Message;

fn fresh() -> App<'static> {
    App::new("fans", true)
}

#[test]
fn new_display_is_empty() {
    let app = fresh();
    assert_eq!(app.title, "fans");
    assert!(app.enhanced_graphics);
    assert!(!app.should_quit);
    assert!(app.show_chart);
    assert_eq!(app.tabs.index, 0);
    assert_eq!(app.tabs.titles, vec!["监控", "设置"]);
    assert_eq!(app.tasks.items.len(), 24);
    assert_eq!(app.tasks.items[0], "Item1");
    assert_eq!(app.tasks.items[23], "Item24");
    assert_eq!(app.tasks.state.selected(), None);
    assert!(app.logs.items.is_empty());
    assert!(app.speed_list.items.is_empty());
    assert!(app.temp_list.items.is_empty());
    assert!(app.watt_list.items.is_empty());
    assert_eq!(app.signals.window, [0, 180]);
    assert!(app.barchart_temp.is_empty());
    assert_eq!(app.servers.len(), 4);
    assert_eq!(app.servers[1].location, "Paris");
    assert_eq!(app.servers[2].coords, (-23_540, -46_620));
}

#[test]
fn q_asks_to_quit_and_t_hides_the_chart() {
    let mut app = fresh();
    app.on_key('x');
    assert!(!app.should_quit);
    assert!(app.show_chart);
    app.on_key('t');
    assert!(!app.show_chart);
    app.on_key('t');
    assert!(app.show_chart);
    app.on_key('q');
    assert!(app.should_quit);
    app.on_key('x');
    assert!(app.should_quit);
}

#[test]
fn arrows_and_letters_steer_alike() {
    let mut by_arrow = fresh();
    let mut by_letter = fresh();
    for (arrow, letter) in [
        (Key::Down, 'j'),
        (Key::Down, 'j'),
        (Key::Up, 'k'),
        (Key::Right, 'l'),
        (Key::Left, 'h'),
        (Key::Left, 'h'),
        (Key::Up, 'k'),
        (Key::Up, 'k'),
    ] {
        by_arrow.on_press(arrow);
        by_letter.on_press(Key::Char(letter));
        assert_eq!(by_arrow.tabs.index, by_letter.tabs.index);
        assert_eq!(by_arrow.tasks.state.selected(), by_letter.tasks.state.selected());
    }
    assert_eq!(by_arrow.tabs.index, 1);
    assert_eq!(by_arrow.tasks.state.selected(), Some(22));
}

#[test]
fn steering_walks_tabs_and_tasks() {
    let mut app = fresh();
    app.on_right();
    assert_eq!(app.tabs.index, 1);
    app.on_right();
    assert_eq!(app.tabs.index, 0);
    app.on_left();
    assert_eq!(app.tabs.index, 1);
    app.on_down();
    assert_eq!(app.tasks.state.selected(), Some(0));
    app.on_up();
    assert_eq!(app.tasks.state.selected(), Some(23));
    app.on_down();
    assert_eq!(app.tasks.state.selected(), Some(0));
}

#[test]
fn pressed_q_quits() {
    let mut app = fresh();
    app.on_press(Key::Char('q'));
    assert!(app.should_quit);
    assert_eq!(app.tabs.index, 0);
}

#[test]
fn log_lines_come_to_the_front() {
    let mut app = fresh();
    app.on_message(&Message::Log("10:00:00".to_string(), Level::Info, "first".to_string()));
    app.on_message(&Message::Log("10:00:15".to_string(), Level::Error, "second".to_string()));
    assert_eq!(
        app.logs.items,
        vec![
            (Level::Error, "10:00:15 second".to_string()),
            (Level::Info, "10:00:00 first".to_string()),
        ]
    );
    app.on_disconnect();
    assert_eq!(app.logs.items[0], (Level::Error, "Shutdown".to_string()));
    assert_eq!(app.logs.items.len(), 3);
}

#[test]
fn telemetry_adds_bars() {
    let mut app = fresh();
    app.barchart_speed.push(("old".to_string(), 1));
    let fans = vec![
        ("1_F".to_string(), 4_200_000),
        ("2_F".to_string(), 0),
        ("3_F".to_string(), 999),
        ("4_F".to_string(), -5_000),
        ("5_F".to_string(), 1_999),
    ];
    app.on_message(&Message::GotCpuAndFansSpeed("10:00:00".to_string(), (1, 2), fans));
    assert!(app.barchart_speed.is_empty());
    assert_eq!(
        app.barchart_temp,
        vec![
            ("1_F".to_string(), 4200),
            ("2_F".to_string(), 0),
            ("3_F".to_string(), 0),
            ("4_F".to_string(), 0),
            ("5_F".to_string(), 1),
        ]
    );
    app.on_message(&Message::GotCpuAndFansSpeed("10:00:15".to_string(), (1, 2), vec![("1_F".to_string(), 3_000_000)]));
    assert_eq!(app.barchart_temp.len(), 6);
    assert_eq!(app.barchart_temp[5], ("1_F".to_string(), 3000));
}

#[test]
fn fan_setting_adds_points_and_entries() {
    let mut app = fresh();
    app.on_message(&Message::SetFanSpeed("10:00:00".to_string(), 45_500, 50));
    app.on_message(&Message::SetFanSpeed("10:00:15".to_string(), 61_000, 90));
    assert_eq!(
        app.signals.data1,
        vec![("10:00:00".to_string(), 45_500), ("10:00:15".to_string(), 61_000)]
    );
    assert_eq!(
        app.signals.data2,
        vec![("10:00:00".to_string(), 50_000), ("10:00:15".to_string(), 90_000)]
    );
    assert_eq!(app.speed_list.items, vec![("10:00:15".to_string(), 90), ("10:00:00".to_string(), 50)]);
    assert_eq!(
        app.temp_list.items,
        vec![("10:00:15".to_string(), 61_000), ("10:00:00".to_string(), 45_500)]
    );
}

#[test]
fn histories_stay_bounded() {
    let mut app = fresh();
    for i in 0..400u32 {
        app.on_fan_setting(&format!("t{}", i), i as i64, (i % 100) as u8);
        assert!(app.speed_list.items.len() <= HISTORY_CAP + 1);
        assert!(app.temp_list.items.len() <= HISTORY_CAP + 1);
        assert!(app.signals.data1.len() <= 181);
        assert!(app.signals.data2.len() <= 181);
    }
    assert_eq!(app.speed_list.items.len(), 51);
    assert_eq!(app.temp_list.items[0], ("t399".to_string(), 399));
    assert_eq!(app.temp_list.items[50], ("t349".to_string(), 349));
    assert_eq!(app.signals.data1.len(), 181);
    assert_eq!(app.signals.data1[0], ("t219".to_string(), 219));
    assert_eq!(app.signals.data1[180], ("t399".to_string(), 399));
}

#[test]
fn other_messages_change_nothing() {
    let mut app = fresh();
    app.on_message(&Message::Command("ipmitool sensor".to_string()));
    app.on_message(&Message::Power("10:00:00".to_string(), vec![("Total_Power".to_string(), 180_000)]));
    assert!(app.logs.items.is_empty());
    assert!(app.watt_list.items.is_empty());
    assert!(app.barchart_temp.is_empty());
    assert!(app.signals.data1.is_empty());
}

#[test]
fn tick_turns_log_and_bars() {
    let mut app = fresh();
    app.on_log("1", Level::Info, "a");
    app.on_log("2", Level::Info, "b");
    app.on_log("3", Level::Info, "c");
    app.on_fans(&vec![("x".to_string(), 1_000), ("y".to_string(), 2_000)]);
    app.on_tick();
    assert_eq!(app.logs.items[0].1, "1 a");
    assert_eq!(app.logs.items[1].1, "3 c");
    assert_eq!(app.logs.items[2].1, "2 b");
    assert_eq!(app.barchart_temp, vec![("y".to_string(), 2), ("x".to_string(), 1)]);
}

#[test]
fn window_moves_and_measures() {
    let mut signals = Signals { data1: Vec::new(), data2: Vec::new(), window: [0, 180] };
    assert!(!signals.is_over(180));
    assert!(signals.is_over(181));
    signals.on_tick();
    assert_eq!(signals.window, [1, 181]);
    assert!(!signals.is_over(180));

    let upside_down = Signals { data1: Vec::new(), data2: Vec::new(), window: [10, 3] };
    assert!(!upside_down.is_over(0));
    assert!(upside_down.is_over(1));

    let widest = Signals { data1: Vec::new(), data2: Vec::new(), window: [i64::MIN, i64::MAX] };
    assert!(!widest.is_over(usize::MAX));
}

#[test]
fn keys_need_only_what_they_steer() {
    let mut app = fresh();
    app.tabs.titles.clear();
    assert!(app.accepts(Key::Up));
    assert!(app.accepts(Key::Down));
    assert!(app.accepts(Key::Char('q')));
    assert!(app.accepts(Key::Char('x')));
    assert!(!app.accepts(Key::Left));
    assert!(!app.accepts(Key::Right));
    assert!(!app.accepts(Key::Char('h')));
    assert!(!app.accepts(Key::Char('l')));
    app.on_press(Key::Down);
    assert_eq!(app.tasks.state.selected(), Some(0));
    app.on_press(Key::Char('q'));
    assert!(app.should_quit);

    let mut app = fresh();
    app.tasks.items.clear();
    assert!(app.accepts(Key::Left));
    assert!(app.accepts(Key::Right));
    assert!(app.accepts(Key::Up));
    assert!(app.accepts(Key::Down));
    app.on_press(Key::Right);
    assert_eq!(app.tabs.index, 1);
    app.on_press(Key::Down);
    assert_eq!(app.tasks.state.selected(), Some(0));
    assert!(!app.accepts(Key::Up));
    assert!(!app.accepts(Key::Char('j')));
    assert!(app.accepts(Key::Char('t')));
}
