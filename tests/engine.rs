use resman::app::{memory_percent, App, CoreReading, GpuInfo, ProcessAction, Snapshot};
use resman::input::{intent_for, Intent, Key};
use resman::process::{
    build_view, filter_indices, pids_distinct, query_filter, matches_query, sort_indices,
    ProcessRecord, SortOrder,
};
use resman::text::chars_of;
use resman::toast::ToastLevel;

fn proc_rec(pid: u32, name: &str, cpu: u32, memory: u64, run_time: u64) -> ProcessRecord {
    ProcessRecord {
        pid,
        name: name.to_string(),
        parent: None,
        status: "Run".to_string(),
        exe: None,
        cwd: None,
        cpu_usage: cpu,
        memory,
        virtual_memory: 0,
        disk_read: 0,
        disk_written: 0,
        run_time,
    }
}

fn snapshot(processes: Vec<ProcessRecord>) -> Snapshot {
    Snapshot {
        cpu_usage: 1250,
        cores: vec![
            CoreReading { usage: 1000, frequency: 2400 },
            CoreReading { usage: 1500, frequency: 2400 },
        ],
        used_memory: 50,
        total_memory: 200,
        processes,
        gpu: None,
    }
}

fn three() -> Vec<ProcessRecord> {
    vec![
        proc_rec(11, "alpha", 1000, 300, 5),
        proc_rec(22, "Firefox", 9000, 100, 50),
        proc_rec(33, "beta", 5000, 200, 500),
    ]
}

fn pids(app: &App) -> Vec<u32> {
    app.get_display_processes()
        .iter()
        .map(|&i| app.snapshot.processes[i].pid)
        .collect()
}

#[test]
fn sort_orders() {
    let raw = three();
    let q = String::new();
    let by = |o| -> Vec<u32> { build_view(&raw, o, &q).iter().map(|&i| raw[i].pid).collect() };
    assert_eq!(by(SortOrder::Cpu), vec![22, 33, 11]);
    assert_eq!(by(SortOrder::Memory), vec![11, 33, 22]);
    assert_eq!(by(SortOrder::Pid), vec![11, 22, 33]);
    assert_eq!(by(SortOrder::RunTime), vec![33, 22, 11]);
}

#[test]
fn equal_keys_break_by_pid() {
    let raw = vec![
        proc_rec(9, "a", 500, 10, 1),
        proc_rec(3, "b", 500, 10, 1),
        proc_rec(5, "c", 500, 10, 1),
    ];
    let v = sort_indices(&raw, SortOrder::Cpu);
    let p: Vec<u32> = v.iter().map(|&i| raw[i].pid).collect();
    assert_eq!(p, vec![3, 5, 9]);
}

#[test]
fn resorting_is_history_free() {
    let raw = three();
    let q = String::new();
    let direct = build_view(&raw, SortOrder::Memory, &q);
    let mut app = App::new(snapshot(three()), 0);
    app.set_sort_order(SortOrder::Memory);
    app.set_sort_order(SortOrder::Cpu);
    app.set_sort_order(SortOrder::Memory);
    assert_eq!(app.get_display_processes(), &direct);
}

#[test]
fn filter_by_name_case_insensitive_and_pid() {
    let raw = three();
    let v = build_view(&raw, SortOrder::Cpu, &"FIRE".to_string());
    assert_eq!(v, vec![1]);
    let v = build_view(&raw, SortOrder::Pid, &"3".to_string());
    assert_eq!(v, vec![2]);
    let v = build_view(&raw, SortOrder::Pid, &"a".to_string());
    assert_eq!(v, vec![0, 2]);
    let v = build_view(&raw, SortOrder::Pid, &"zzz".to_string());
    assert!(v.is_empty());
}

#[test]
fn filter_twice_is_filter_once() {
    let raw = three();
    let all = sort_indices(&raw, SortOrder::Cpu);
    let q = query_filter(&"e".to_string());
    let once = filter_indices(&raw, &all, &q);
    let twice = filter_indices(&raw, &once, &q);
    assert_eq!(once, twice);
    assert_eq!(once, vec![1, 2]);
}

#[test]
fn lowercase_applies_to_name_and_query() {
    let r = proc_rec(7, "FireFox", 0, 0, 0);
    assert!(matches_query(&r, &chars_of("refo")));
    assert!(!matches_query(&r, &chars_of("Fire")));
    assert_eq!(query_filter(&"FiRe".to_string()), Some(chars_of("fire")));
    assert_eq!(query_filter(&String::new()), None);
}

#[test]
fn distinct_pid_check() {
    assert!(pids_distinct(&three()));
    let mut dup = three();
    dup.push(proc_rec(22, "again", 0, 0, 0));
    assert!(!pids_distinct(&dup));
    assert!(pids_distinct(&Vec::new()));
}

#[test]
fn memory_percent_formula() {
    assert_eq!(memory_percent(50, 200), 2500);
    assert_eq!(memory_percent(1, 3), 3333);
    assert_eq!(memory_percent(0, 0), 0);
    assert_eq!(memory_percent(300, 200), 10000);
    assert_eq!(memory_percent(u64::MAX - 1, u64::MAX), 9999);
}

#[test]
fn poll_records_histories() {
    let mut app = App::new(snapshot(three()), 0);
    assert_eq!(app.cpu_history.len(), 2);
    let mut next = snapshot(three());
    next.cores = vec![CoreReading { usage: 4200, frequency: 3000 }];
    next.gpu = Some(GpuInfo {
        name: "card".to_string(),
        usage: 77,
        memory_used: 1,
        memory_total: 2,
        temperature: 50,
    });
    app.update(next, 500);
    assert_eq!(app.cpu_history[0].series(), &vec![4200]);
    assert!(app.cpu_history[1].series().is_empty());
    assert_eq!(app.overall_cpu_history.series(), &vec![1250]);
    assert_eq!(app.memory_history.series(), &vec![2500]);
    assert_eq!(app.gpu_usage_history.series(), &vec![77]);
    assert_eq!(app.last_update, 500);
    app.update(snapshot(three()), 1000);
    assert_eq!(app.gpu_usage_history.series(), &vec![77]);
    assert_eq!(app.overall_cpu_history.series().len(), 2);
}

#[test]
fn navigation_clamps() {
    let mut app = App::new(snapshot(three()), 0);
    app.previous_process();
    assert_eq!(app.selected_process, Some(0));
    app.previous_process();
    assert_eq!(app.selected_process, Some(0));
    app.next_process();
    app.next_process();
    app.next_process();
    assert_eq!(app.selected_process, Some(2));
    let mut fresh = App::new(snapshot(three()), 0);
    fresh.next_process();
    assert_eq!(fresh.selected_process, Some(0));
}

#[test]
fn empty_view_keeps_no_selection() {
    let mut app = App::new(snapshot(Vec::new()), 0);
    app.next_process();
    assert_eq!(app.selected_process, None);
    app.previous_process();
    assert_eq!(app.selected_process, None);
    assert!(app.get_selected_process().is_none());
}

#[test]
fn selection_reclamps_when_view_shrinks() {
    let mut app = App::new(snapshot(three()), 0);
    app.next_process();
    app.next_process();
    app.next_process();
    assert_eq!(app.selected_process, Some(2));
    app.enter_search();
    app.push_search_char('a');
    assert_eq!(pids(&app), vec![33, 11]);
    assert_eq!(app.selected_process, Some(1));
    app.push_search_char('x');
    assert_eq!(app.selected_process, None);
    app.pop_search_char();
    assert_eq!(app.search_query, "a");
    app.clear_search();
    assert_eq!(pids(&app), vec![22, 33, 11]);
    app.exit_search();
    assert!(!app.search_mode);
}

#[test]
fn confirmation_machine() {
    let mut app = App::new(snapshot(three()), 0);
    app.request_action(ProcessAction::Kill);
    assert!(app.confirmation.is_none());
    app.confirm(Ok("ignored".to_string()), 10);
    assert!(app.toast.is_none());
    app.cancel();
    assert!(app.confirmation.is_none());
    app.next_process();
    app.request_action(ProcessAction::Suspend);
    let c = app.confirmation.clone().unwrap();
    assert_eq!(c.pid, 22);
    assert_eq!(c.process_name, "Firefox");
    assert_eq!(c.action, ProcessAction::Suspend);
    app.cancel();
    assert!(app.confirmation.is_none());
    assert!(app.toast.is_none());
    app.request_action(ProcessAction::Resume);
    app.confirm(Err("not supported here".to_string()), 100);
    assert!(app.confirmation.is_none());
    let t = app.toast.clone().unwrap();
    assert_eq!(t.level, ToastLevel::Error);
    assert_eq!(t.message, "not supported here");
}

#[test]
fn toast_lifecycle_through_polls() {
    let mut app = App::new(snapshot(three()), 0);
    app.show_toast("hello".to_string(), ToastLevel::Info, 1000);
    assert!(app.toast_visible_at(3999));
    assert!(!app.toast_visible_at(4000));
    app.update(snapshot(three()), 3999);
    assert!(app.toast.is_some());
    app.update(snapshot(three()), 4000);
    assert!(app.toast.is_none());
}

#[test]
fn kill_top_process_then_poll_without_it() {
    let mut app = App::new(snapshot(vec![
        proc_rec(1, "low", 1000, 0, 0),
        proc_rec(2, "high", 9000, 0, 0),
        proc_rec(3, "mid", 5000, 0, 0),
    ]), 0);
    app.set_sort_order(SortOrder::Cpu);
    let cpus: Vec<u32> = app
        .get_display_processes()
        .iter()
        .map(|&i| app.snapshot.processes[i].cpu_usage)
        .collect();
    assert_eq!(cpus, vec![9000, 5000, 1000]);
    app.next_process();
    assert_eq!(app.get_selected_process().unwrap().cpu_usage, 9000);
    app.request_action(ProcessAction::Kill);
    assert_eq!(app.confirmation.as_ref().unwrap().pid, 2);
    app.confirm(Ok("Process 2 killed".to_string()), 100);
    app.update(snapshot(vec![
        proc_rec(1, "low", 1000, 0, 0),
        proc_rec(3, "mid", 5000, 0, 0),
    ]), 200);
    let t = app.toast.clone().unwrap();
    assert_eq!(t.level, ToastLevel::Success);
    assert_eq!(t.message, "Process 2 killed");
    assert!(app.confirmation.is_none());
    assert_eq!(pids(&app), vec![3, 1]);
    assert_eq!(app.selected_process, Some(0));
}

#[test]
fn refresh_controls_and_due() {
    let mut app = App::new(snapshot(three()), 1000);
    assert_eq!(app.refresh_rate_ms(), 500);
    assert!(!app.poll_due(1499));
    assert!(app.poll_due(1500));
    app.slower();
    assert_eq!(app.refresh_rate_ms(), 1000);
    app.faster();
    app.faster();
    assert_eq!(app.refresh_rate_ms(), 250);
}

#[test]
fn toggles_and_quit() {
    let mut app = App::new(snapshot(three()), 0);
    app.toggle_details();
    assert!(app.show_details);
    app.toggle_help();
    assert!(app.show_help);
    app.quit();
    assert!(app.should_quit);
}

#[test]
fn key_routing_priority() {
    assert_eq!(intent_for(true, true, true, false, true, Key::Char('y')), Intent::Confirm);
    assert_eq!(intent_for(true, false, false, false, true, Key::Esc), Intent::Cancel);
    assert_eq!(intent_for(true, false, false, false, true, Key::Down), Intent::Ignore);
    assert_eq!(intent_for(false, true, true, false, true, Key::Char('q')), Intent::SearchChar('q'));
    assert_eq!(intent_for(false, true, false, false, true, Key::Esc), Intent::ClearSearch);
    assert_eq!(intent_for(false, false, true, false, true, Key::Down), Intent::Ignore);
    assert_eq!(intent_for(false, false, true, false, true, Key::Esc), Intent::ToggleHelp);
    assert_eq!(intent_for(false, false, false, false, true, Key::Char('q')), Intent::Quit);
    assert_eq!(intent_for(false, false, false, true, true, Key::Char('q')), Intent::Ignore);
    assert_eq!(intent_for(false, false, false, false, false, Key::Enter), Intent::Ignore);
    assert_eq!(intent_for(false, false, false, false, true, Key::Enter), Intent::ToggleDetails);
    assert_eq!(intent_for(false, false, false, false, true, Key::Char('m')), Intent::Sort(SortOrder::Memory));
    assert_eq!(intent_for(false, false, false, false, true, Key::Char('K')), Intent::Request(ProcessAction::Kill));
    let app = App::new(snapshot(three()), 0);
    assert_eq!(app.key_intent(Key::Char('/')), Intent::EnterSearch);
}
