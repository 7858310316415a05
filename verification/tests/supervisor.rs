use breakrs::supervisor::{
    ensure_daemon_running, is_daemon_running, process_to_probe, start_daemon_process, Answer, Goal,
    Request, Supervisor, Verdict, Waiting,
};

/// A stand-in for the world outside: a marker, the processes that are alive,
/// and a count of the daemons spawned.
struct World {
    marker: Option<String>,
    alive: Vec<u32>,
    spawned: u32,
}

impl World {
    /// Carries out the supervisor's requests until it is done.
    fn run(&mut self, start: (Supervisor, Request)) -> Verdict {
        let (mut supervisor, mut request) = start;
        loop {
            let answer = match request {
                Request::ReadMarker => Answer::MarkerRead(self.marker.clone()),
                Request::Probe(pid) => Answer::Probed(self.alive.contains(&pid)),
                Request::Spawn => {
                    self.spawned += 1;
                    let pid = 1000 + self.spawned;
                    self.marker = Some(pid.to_string());
                    self.alive.push(pid);
                    Answer::Spawned
                }
                Request::Finish(verdict) => return verdict,
            };
            (supervisor, request) = supervisor.step(answer);
        }
    }
}

#[test]
fn test_is_daemon_running_no_pid_file() {
    // When there's no PID file, daemon should not be running
    let mut world = World {
        marker: None,
        alive: vec![1, 2, 3],
        spawned: 0,
    };
    let verdict = world.run(is_daemon_running());
    assert_eq!(verdict, Verdict::NotRunning);
    assert_eq!(world.spawned, 0);
}

#[test]
fn test_ensure_daemon_running_idempotent() {
    // Calling ensure_daemon_running multiple times should be safe
    let mut world = World {
        marker: None,
        alive: Vec::new(),
        spawned: 0,
    };
    assert_eq!(world.run(ensure_daemon_running()), Verdict::Spawned);
    assert_eq!(world.spawned, 1);
    assert_eq!(world.run(ensure_daemon_running()), Verdict::Running);
    assert_eq!(world.run(ensure_daemon_running()), Verdict::Running);
    assert_eq!(world.spawned, 1);
}

#[test]
fn a_live_daemon_is_found_running() {
    let mut world = World {
        marker: Some("4242\n".to_string()),
        alive: vec![4242],
        spawned: 0,
    };
    assert_eq!(world.run(is_daemon_running()), Verdict::Running);
    assert_eq!(world.run(start_daemon_process()), Verdict::Running);
    assert_eq!(world.run(ensure_daemon_running()), Verdict::Running);
    assert_eq!(world.spawned, 0);
}

#[test]
fn a_stale_marker_does_not_count() {
    let mut world = World {
        marker: Some("4242".to_string()),
        alive: vec![1],
        spawned: 0,
    };
    assert_eq!(world.run(is_daemon_running()), Verdict::NotRunning);
    assert_eq!(world.spawned, 0);
    assert_eq!(world.run(start_daemon_process()), Verdict::Spawned);
    assert_eq!(world.spawned, 1);
    assert_eq!(world.run(is_daemon_running()), Verdict::Running);
}

#[test]
fn a_marker_that_names_no_process_does_not_count() {
    for text in ["", "0", "garbage", "-1", "99999999999"] {
        let mut world = World {
            marker: Some(text.to_string()),
            alive: vec![0, 1],
            spawned: 0,
        };
        assert_eq!(world.run(is_daemon_running()), Verdict::NotRunning, "{:?}", text);
        assert_eq!(world.run(ensure_daemon_running()), Verdict::Spawned, "{:?}", text);
        assert_eq!(world.spawned, 1);
    }
}

#[test]
fn ensuring_looks_twice_before_it_spawns() {
    let (supervisor, request) = ensure_daemon_running();
    assert_eq!(request, Request::ReadMarker);
    assert_eq!(supervisor.goal, Goal::Ensure);
    let (supervisor, request) = supervisor.step(Answer::MarkerRead(Some("7".to_string())));
    assert_eq!(request, Request::Probe(7));
    assert_eq!(supervisor.waiting, Waiting::Probe(7));
    let (supervisor, request) = supervisor.step(Answer::Probed(false));
    assert_eq!(request, Request::ReadMarker);
    assert_eq!(supervisor.goal, Goal::Start);
    let (supervisor, request) = supervisor.step(Answer::MarkerRead(Some("7".to_string())));
    assert_eq!(request, Request::Probe(7));
    let (supervisor, request) = supervisor.step(Answer::Probed(false));
    assert_eq!(request, Request::Spawn);
    let (supervisor, request) = supervisor.step(Answer::Spawned);
    assert_eq!(request, Request::Finish(Verdict::Spawned));
    let (supervisor, request) = supervisor.step(Answer::Probed(true));
    assert_eq!(request, Request::Finish(Verdict::Spawned));
    assert_eq!(supervisor.waiting, Waiting::Nothing(Verdict::Spawned));
}

#[test]
fn a_daemon_that_came_up_meanwhile_is_not_doubled() {
    let (supervisor, _) = ensure_daemon_running();
    let (supervisor, request) = supervisor.step(Answer::MarkerRead(None));
    assert_eq!(request, Request::ReadMarker);
    let (supervisor, request) = supervisor.step(Answer::MarkerRead(Some("55".to_string())));
    assert_eq!(request, Request::Probe(55));
    let (_, request) = supervisor.step(Answer::Probed(true));
    assert_eq!(request, Request::Finish(Verdict::Running));
}

#[test]
fn an_answer_out_of_turn_repeats_the_request() {
    let (supervisor, _) = start_daemon_process();
    let (supervisor, request) = supervisor.step(Answer::Probed(true));
    assert_eq!(request, Request::ReadMarker);
    let (supervisor, request) = supervisor.step(Answer::Spawned);
    assert_eq!(request, Request::ReadMarker);
    let (supervisor, request) = supervisor.step(Answer::MarkerRead(Some("9".to_string())));
    assert_eq!(request, Request::Probe(9));
    let (supervisor, request) = supervisor.step(Answer::MarkerRead(None));
    assert_eq!(request, Request::Probe(9));
    let (supervisor, request) = supervisor.step(Answer::Probed(false));
    assert_eq!(request, Request::Spawn);
    let (_, request) = supervisor.step(Answer::Probed(false));
    assert_eq!(request, Request::Spawn);
}

#[test]
fn marker_names_the_process_to_probe() {
    assert_eq!(process_to_probe(None), None);
    assert_eq!(process_to_probe(Some("4242")), Some(4242));
    assert_eq!(process_to_probe(Some("  4242\n")), Some(4242));
    assert_eq!(process_to_probe(Some("+17")), Some(17));
    assert_eq!(process_to_probe(Some("0017")), Some(17));
    assert_eq!(process_to_probe(Some("4294967295")), Some(u32::MAX));
    assert_eq!(process_to_probe(Some("0")), None);
    assert_eq!(process_to_probe(Some("")), None);
    assert_eq!(process_to_probe(Some("   ")), None);
    assert_eq!(process_to_probe(Some("-5")), None);
    assert_eq!(process_to_probe(Some("12 34")), None);
    assert_eq!(process_to_probe(Some("abc")), None);
    assert_eq!(process_to_probe(Some("4294967296")), None);
    assert_eq!(process_to_probe(Some("99999999999999999999999999")), None);
}

#[test]
fn marker_is_read_as_a_process_id_is_parsed() {
    for text in ["1", " 77 ", "+", "-", "+0", "1.5", "١٢", "65536\t", "\u{a0}9\u{2003}"] {
        let expected = text.trim().parse::<u32>().unwrap_or(0);
        let expected = if expected == 0 { None } else { Some(expected) };
        assert_eq!(process_to_probe(Some(text)), expected, "{:?}", text);
    }
}
