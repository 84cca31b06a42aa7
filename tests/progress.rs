use multibar::{render_bar, Message, Progress, ProgressBar, ScrollingMsg, Step, WindowItem, FULL};

fn titles(names: &[&str]) -> Vec<String> {
    names.iter().map(|s| s.to_string()).collect()
}

#[test]
fn progress_reports_new_percent() {
    let mut p = Progress::new("File1.pdf", 3);
    match p.progress(1250) {
        Message::Progress { title, progress, y } => {
            assert_eq!(title, "File1.pdf");
            assert_eq!(progress, 1250);
            assert_eq!(y, 3);
        }
        Message::Finished { .. } => panic!("finished too early"),
    }
    assert_eq!(p.percent(), 1250);
    assert_eq!(p.title(), "File1.pdf");
    assert_eq!(p.row(), 3);
}

#[test]
fn progress_completes_at_full_and_caps() {
    let mut p = Progress::new("a", 0);
    assert!(matches!(p.progress(9999), Message::Progress { progress: 9999, .. }));
    match p.progress(5000) {
        Message::Finished { title, y } => {
            assert_eq!(title, "a");
            assert_eq!(y, 0);
        }
        Message::Progress { .. } => panic!("should have finished"),
    }
    assert_eq!(p.percent(), FULL);
}

#[test]
fn progress_exactly_full_completes() {
    let mut p = Progress::new("b", 1);
    assert!(matches!(p.progress(FULL), Message::Finished { .. }));
}

#[test]
fn progress_percent_never_decreases() {
    let mut p = Progress::new("c", 0);
    let mut last = 0;
    let mut finished = 0;
    while p.percent() < FULL {
        let m = p.progress(700);
        if let Message::Finished { .. } = m {
            finished += 1;
        }
        assert!(p.percent() > last);
        last = p.percent();
    }
    assert_eq!(finished, 1);
    assert_eq!(last, FULL);
}

#[test]
fn bar_at_zero_is_empty_with_marker_first() {
    assert_eq!(render_bar("t", 0, 5), "t: [>    ] 0.00 %");
}

#[test]
fn bar_at_full_has_no_marker() {
    let s = render_bar("t", FULL, 5);
    assert_eq!(s, "t: [=====] 100.00 %");
    assert!(!s.contains('>'));
}

#[test]
fn bar_at_forty_percent() {
    assert_eq!(render_bar("File1", 4000, 10), "File1: [====>     ] 40.00 %");
}

#[test]
fn bar_rounds_fill_down_and_prints_two_decimals() {
    assert_eq!(render_bar("x", 1234, 50), "x: [======>                                           ] 12.34 %");
    assert_eq!(render_bar("x", 5, 4), "x: [>   ] 0.05 %");
    assert_eq!(render_bar("x", 9999, 4), "x: [===>] 99.99 %");
}

#[test]
fn group_of_three_completes_after_three_ticks() {
    let mut bar = ProgressBar::new(titles(&["A", "B", "C"]), 2, 10);
    let mut workers = bar.start();
    assert_eq!(workers.len(), 3);
    for (i, w) in workers.iter().enumerate() {
        assert_eq!(w.row(), 2 + i as i32);
        assert_eq!(w.percent(), 0);
    }
    assert_eq!(workers[1].title(), "B");

    for w in workers.iter_mut() {
        assert_eq!(w.tick_by(4000), Step::Continue);
    }
    for _ in 0..3 {
        let (done, d) = bar.poll_channel();
        assert!(!done);
        let d = d.expect("a queued update");
        assert!(d.text.ends_with("] 40.00 %"));
        assert!(d.text.contains("[====>     ]"));
    }
    assert_eq!(bar.completed(), 0);
    assert!(!bar.is_done());
    for w in workers.iter() {
        assert_eq!(w.percent(), 4000);
    }

    for w in workers.iter_mut() {
        assert_eq!(w.tick_by(4000), Step::Continue);
    }
    for w in workers.iter_mut() {
        assert_eq!(w.tick_by(4000), Step::Done);
        assert!(w.is_complete());
    }
    let mut last = Vec::new();
    for _ in 0..6 {
        let (_, d) = bar.poll_channel();
        last.push(d.expect("a queued update"));
    }
    assert_eq!(bar.completed(), 3);
    assert!(bar.is_done());
    for d in &last[3..] {
        assert!(d.text.ends_with("[==========] 100.00 %"));
    }
    let (done, d) = bar.poll_channel();
    assert!(done);
    assert!(d.is_none());
}

#[test]
fn group_rows_follow_start() {
    let mut bar = ProgressBar::new(titles(&["Folder.xfp", "My Photos"]), 7, 40);
    let workers = bar.start();
    assert_eq!(workers[0].row(), 7);
    assert_eq!(workers[1].row(), 8);
    assert_eq!(workers[1].title(), "My Photos");
    assert_eq!(bar.bg_y(), 7);
    assert_eq!(WindowItem::len(&bar), 2);
}

#[test]
fn group_poll_with_nothing_queued_draws_nothing() {
    let mut bar = ProgressBar::new(titles(&["A"]), 0, 10);
    let _workers = bar.start();
    let (done, d) = bar.poll_channel();
    assert!(!done);
    assert!(d.is_none());
}

#[test]
fn group_not_started_reads_nothing() {
    let mut bar = ProgressBar::new(titles(&["A"]), 0, 10);
    let (done, d) = WindowItem::poll(&mut bar, 0);
    assert!(!done);
    assert!(d.is_none());
}

#[test]
fn empty_group_is_done_at_once() {
    let mut bar = ProgressBar::new(Vec::new(), 0, 10);
    assert!(bar.is_done());
    let workers = bar.start();
    assert!(workers.is_empty());
    assert_eq!(bar.poll_channel().0, true);
}

#[test]
fn receive_counts_completion_once_group_open() {
    let mut bar = ProgressBar::new(titles(&["A"]), 4, 10);
    let d = bar.receive(Some(Message::Progress { title: "A".to_string(), progress: 2550, y: 4 }));
    let d = d.expect("drawn");
    assert_eq!(d.y, 4);
    assert_eq!(d.text, "A: [==>       ] 25.50 %");
    assert_eq!(bar.completed(), 0);
    let d = bar.receive(Some(Message::Finished { title: "A".to_string(), y: 4 })).expect("drawn");
    assert_eq!(d.text, "A: [==========] 100.00 %");
    assert_eq!(bar.completed(), 1);
    assert!(bar.receive(Some(Message::Finished { title: "A".to_string(), y: 4 })).is_none());
    assert_eq!(bar.completed(), 1);
    assert!(bar.receive(None).is_none());
}

#[test]
fn worker_reports_disconnected_when_receiver_gone() {
    let mut bar = ProgressBar::new(titles(&["A"]), 0, 10);
    let mut workers = bar.start();
    drop(bar);
    assert_eq!(workers[0].tick_by(100), Step::Disconnected);
    assert_eq!(workers[0].percent(), 100);
}

#[test]
fn random_tick_advances_within_step_bound() {
    let mut bar = ProgressBar::new(titles(&["A"]), 0, 10);
    let mut workers = bar.start();
    let mut ticks = 0;
    loop {
        let before = workers[0].percent();
        let step = workers[0].tick();
        let after = workers[0].percent();
        assert!(after > before);
        assert!(after < before + 400);
        ticks += 1;
        if step == Step::Done {
            break;
        }
        assert_eq!(step, Step::Continue);
    }
    assert!(ticks <= FULL as usize);
    let mut finished = 0;
    while let (_, Some(_)) = bar.poll_channel() {
        finished += 1;
    }
    assert_eq!(finished, ticks);
    assert!(bar.is_done());
}

#[test]
fn marquee_advances_six_after_three_point_one_seconds() {
    let mut m = ScrollingMsg::new("abcd".to_string(), 10, 5, 2, 0);
    let d = m.advance(3100);
    assert_eq!(m.offset(), 6);
    assert_eq!(d.y, 5);
    assert_eq!(d.text, "[      abcd]");
}

#[test]
fn marquee_wraps_message_around() {
    let mut m = ScrollingMsg::new("abcd".to_string(), 10, 0, 2, 0);
    let d = m.advance(4000);
    assert_eq!(m.offset(), 8);
    assert_eq!(d.text, "[cd      ab]");
    let d = m.advance(5000);
    assert_eq!(m.offset(), 0);
    assert_eq!(d.text, "[abcd      ]");
}

#[test]
fn marquee_is_independent_of_poll_frequency() {
    let mut a = ScrollingMsg::new("Hello there!".to_string(), 36, 0, 4, 1000);
    let mut b = ScrollingMsg::new("Hello there!".to_string(), 36, 0, 4, 1000);
    for t in [1100u64, 1240, 1250, 1600, 1601, 2999, 4333, 9000, 12345] {
        a.advance(t);
    }
    b.advance(12345);
    assert_eq!(a.offset(), b.offset());
    assert_eq!(a.offset(), ((12345 - 1000) * 4 / 1000) % 36);
}

#[test]
fn marquee_polling_twice_at_same_time_advances_once() {
    let mut m = ScrollingMsg::new("abcd".to_string(), 10, 0, 3, 0);
    m.advance(1500);
    assert_eq!(m.offset(), 4);
    m.advance(1500);
    assert_eq!(m.offset(), 4);
}

#[test]
fn marquee_short_interval_keeps_accumulating() {
    let mut m = ScrollingMsg::new("ab".to_string(), 10, 0, 2, 0);
    m.advance(300);
    assert_eq!(m.offset(), 0);
    m.advance(600);
    assert_eq!(m.offset(), 1);
}

#[test]
fn marquee_never_done() {
    let mut m = ScrollingMsg::new("ab".to_string(), 4, 9, 1, 0);
    let (done, d) = WindowItem::poll(&mut m, 2000);
    assert!(!done);
    assert!(!m.is_done());
    assert_eq!(d.expect("always draws").text, "[  ab]");
    assert_eq!(m.bg_y(), 9);
    assert_eq!(WindowItem::len(&m), 1);
}

#[test]
fn marquee_full_width_message() {
    let mut m = ScrollingMsg::new("abc".to_string(), 3, 0, 1, 0);
    let d = m.advance(1000);
    assert_eq!(d.text, "[cab]");
}

#[test]
fn advance_all_stops_after_completion() {
    let mut p = Progress::new("d", 2);
    let msgs = p.advance_all(&vec![3000, 3000, 3000, 3000, 3000, 3000]);
    assert_eq!(msgs.len(), 4);
    let percents: Vec<u64> = msgs
        .iter()
        .map(|m| match m {
            Message::Progress { progress, .. } => *progress,
            Message::Finished { .. } => FULL,
        })
        .collect();
    assert_eq!(percents, vec![3000, 6000, 9000, FULL]);
    assert!(matches!(msgs[3], Message::Finished { y: 2, .. }));
    assert!(msgs[..3].iter().all(|m| matches!(m, Message::Progress { .. })));
    assert_eq!(p.percent(), FULL);
}

#[test]
fn advance_all_on_complete_source_reports_nothing() {
    let mut p = Progress::new("e", 0);
    p.progress(FULL);
    assert!(p.advance_all(&vec![1, 2, 3]).is_empty());
}

#[test]
fn receive_all_counts_each_completion_once() {
    let mut bar = ProgressBar::new(titles(&["A", "B"]), 0, 10);
    let fin = |t: &str, y: i32| Some(Message::Finished { title: t.to_string(), y });
    let prog = |t: &str, p: u64, y: i32| Some(Message::Progress { title: t.to_string(), progress: p, y });
    let draws = bar.receive_all(vec![prog("A", 4000, 0), None, fin("A", 0), prog("B", 8000, 1), fin("B", 1), fin("B", 1)]);
    assert_eq!(draws.len(), 6);
    assert_eq!(draws[0].as_ref().unwrap().text, "A: [====>     ] 40.00 %");
    assert!(draws[1].is_none());
    assert_eq!(draws[2].as_ref().unwrap().text, "A: [==========] 100.00 %");
    assert_eq!(draws[3].as_ref().unwrap().y, 1);
    assert_eq!(draws[4].as_ref().unwrap().text, "B: [==========] 100.00 %");
    assert!(draws[5].is_none());
    assert_eq!(bar.completed(), 2);
    assert!(bar.is_done());
}

#[test]
fn marquee_schedule_matches_single_poll() {
    let mut a = ScrollingMsg::new("abcd".to_string(), 10, 3, 2, 0);
    let draws = a.advance_all(&vec![400, 900, 1500, 3100]);
    assert_eq!(draws.len(), 4);
    assert_eq!(a.offset(), 6);
    assert_eq!(draws[3].text, "[      abcd]");
    assert_eq!(draws[1].text, "[ abcd     ]");
    assert!(draws.iter().all(|d| d.y == 3));
}
