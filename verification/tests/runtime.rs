use reactor_runtime::{
    init_advanced_runtime, AnyReactor, AnyTask, Executor, ExecutorRegistry, FileReactor, FileTask,
    NetworkReactor, NetworkTask, PollState, Reactor, ReactorManager, RunStep, SpawnRefused, TaskExecutor,
    TimerReactor, TimerTask, Waker,
};
use reactor_runtime::Future;

fn manager_with_all() -> ReactorManager<AnyReactor> {
    let mut m: ReactorManager<AnyReactor> = ReactorManager::new();
    m.register_reactor("network", AnyReactor::Network(NetworkReactor::new()));
    m.register_reactor("file", AnyReactor::File(FileReactor::new()));
    m.register_reactor("timer", AnyReactor::Timer(TimerReactor::new()));
    m
}

#[test]
fn spawn_keeps_tasks_under_their_own_ids() {
    let mut e: Executor<AnyTask> = Executor::new(1, "网络执行器".to_string());
    assert!(matches!(e.spawn(AnyTask::Network(NetworkTask::new(101))), Ok(101)));
    assert!(matches!(e.spawn(AnyTask::Network(NetworkTask::new(102))), Ok(102)));
    assert!(matches!(e.spawn(AnyTask::File(FileTask::new(201))), Ok(201)));
}

#[test]
fn run_step_polls_in_spawn_order_and_waits() {
    let mut reactors = manager_with_all();
    let mut e: Executor<AnyTask> = Executor::new(7, "e".to_string());
    assert!(e.spawn(AnyTask::Network(NetworkTask::new(101))).is_ok());
    assert!(e.spawn(AnyTask::Network(NetworkTask::new(102))).is_ok());
    assert!(matches!(e.run_step(&mut reactors), RunStep::Pending { task_id: 101 }));
    assert!(matches!(e.run_step(&mut reactors), RunStep::Pending { task_id: 102 }));
    assert!(matches!(e.run_step(&mut reactors), RunStep::Waiting { pending: 2 }));
    let net = reactors.get_reactor("network").unwrap();
    let mut wakers = net.pending_wakers();
    wakers.sort_by_key(|p| p.0);
    assert_eq!(
        wakers,
        vec![
            (101, Waker { task_id: 101, executor_id: 7 }),
            (102, Waker { task_id: 102, executor_id: 7 })
        ]
    );
    assert!(reactors.get_reactor("file").unwrap().pending_wakers().is_empty());
}

#[test]
fn empty_executor_is_finished() {
    let mut reactors = manager_with_all();
    let mut e: Executor<AnyTask> = Executor::new(1, "e".to_string());
    assert!(matches!(e.run_step(&mut reactors), RunStep::Finished));
}

#[test]
fn woken_id_without_task_is_skipped() {
    let mut reactors = manager_with_all();
    let mut e: Executor<AnyTask> = Executor::new(1, "e".to_string());
    e.wake_task(5);
    assert!(matches!(e.run_step(&mut reactors), RunStep::Skipped { task_id: 5 }));
    assert!(matches!(e.run_step(&mut reactors), RunStep::Finished));
}

#[test]
fn full_round_trip_network_executor() {
    let (mut registry, mut reactors): (ExecutorRegistry<AnyTask>, ReactorManager<AnyReactor>) =
        init_advanced_runtime();
    reactors.register_reactor("network", AnyReactor::Network(NetworkReactor::new()));
    reactors.register_reactor("file", AnyReactor::File(FileReactor::new()));
    reactors.register_reactor("timer", AnyReactor::Timer(TimerReactor::new()));
    registry.register_executor(1, Executor::new(1, "网络执行器".to_string()));
    assert!(matches!(registry.spawn_on(1, AnyTask::Network(NetworkTask::new(101))), Ok(101)));
    assert!(matches!(registry.spawn_on(1, AnyTask::Network(NetworkTask::new(102))), Ok(102)));
    assert!(matches!(registry.run_executor(1, &mut reactors), Some(RunStep::Pending { task_id: 101 })));
    assert!(matches!(registry.run_executor(1, &mut reactors), Some(RunStep::Pending { task_id: 102 })));
    assert!(matches!(registry.run_executor(1, &mut reactors), Some(RunStep::Waiting { pending: 2 })));

    let mut wakers = reactors.get_reactor("network").unwrap().pending_wakers();
    wakers.sort_by_key(|p| p.0);
    assert_eq!(wakers.len(), 2);
    for (_, w) in wakers.iter() {
        assert!(w.wake(&mut registry));
    }
    let mut outputs = Vec::new();
    for _ in 0..2 {
        match registry.run_executor(1, &mut reactors) {
            Some(RunStep::Completed { task_id, output }) => outputs.push((task_id, output)),
            _ => panic!("expected a completed task"),
        }
    }
    assert_eq!(
        outputs,
        vec![
            (101, "网络任务 101 已完成".to_string()),
            (102, "网络任务 102 已完成".to_string())
        ]
    );
    assert!(matches!(registry.run_executor(1, &mut reactors), Some(RunStep::Finished)));
}

#[test]
fn waking_again_after_completion_is_skipped() {
    let mut reactors = manager_with_all();
    let mut registry: ExecutorRegistry<AnyTask> = ExecutorRegistry::new();
    registry.register_executor(3, Executor::new(3, "定时器执行器".to_string()));
    assert!(matches!(registry.spawn_on(3, AnyTask::Timer(TimerTask::new(301))), Ok(301)));
    assert!(matches!(registry.run_executor(3, &mut reactors), Some(RunStep::Pending { task_id: 301 })));
    let w = reactors.get_reactor("timer").unwrap().pending_wakers()[0].1;
    assert_eq!(w, Waker { task_id: 301, executor_id: 3 });
    assert!(w.wake(&mut registry));
    match registry.run_executor(3, &mut reactors) {
        Some(RunStep::Completed { task_id, output }) => {
            assert_eq!(task_id, 301);
            assert_eq!(output, "定时器任务 301 已完成");
        }
        _ => panic!("expected completion"),
    }
    // the reactor keeps the waker; a second event wakes a finished task
    assert!(w.wake(&mut registry));
    assert!(matches!(registry.run_executor(3, &mut reactors), Some(RunStep::Skipped { task_id: 301 })));
    assert!(matches!(registry.run_executor(3, &mut reactors), Some(RunStep::Finished)));
}

#[test]
fn wake_unknown_executor_changes_nothing() {
    let mut registry: ExecutorRegistry<AnyTask> = ExecutorRegistry::new();
    registry.register_executor(1, Executor::new(1, "a".to_string()));
    let w = Waker { task_id: 1, executor_id: 9 };
    assert!(!w.wake(&mut registry));
    assert_eq!(registry.get_executor(1).unwrap().get_name(), "a");
}

#[test]
fn wake_reaches_only_named_executor() {
    let mut reactors = manager_with_all();
    let mut registry: ExecutorRegistry<AnyTask> = ExecutorRegistry::new();
    registry.register_executor(1, Executor::new(1, "a".to_string()));
    registry.register_executor(2, Executor::new(2, "b".to_string()));
    assert!(Waker { task_id: 4, executor_id: 2 }.wake(&mut registry));
    assert!(matches!(registry.run_executor(1, &mut reactors), Some(RunStep::Finished)));
    assert!(matches!(registry.run_executor(2, &mut reactors), Some(RunStep::Skipped { task_id: 4 })));
    assert!(registry.run_executor(3, &mut reactors).is_none());
}

#[test]
fn list_executors_gives_ids_and_names() {
    let mut registry: ExecutorRegistry<AnyTask> = ExecutorRegistry::new();
    registry.register_executor(1, Executor::new(1, "网络执行器".to_string()));
    registry.register_executor(2, Executor::new(2, "文件执行器".to_string()));
    registry.register_executor(3, Executor::new(3, "定时器执行器".to_string()));
    registry.register_executor(2, Executor::new(2, "文件执行器二".to_string()));
    let list = registry.list_executors();
    assert_eq!(
        list,
        vec![
            (1, "网络执行器".to_string()),
            (2, "文件执行器二".to_string()),
            (3, "定时器执行器".to_string())
        ]
    );
    assert!(registry.get_executor(4).is_none());
}

#[test]
fn list_reactors_gives_each_type_once() {
    let mut m = manager_with_all();
    m.register_reactor("file", AnyReactor::File(FileReactor::new()));
    let list = m.list_reactors();
    assert_eq!(list, vec!["network", "file", "timer"]);
    assert_eq!(m.get_reactor("timer").unwrap().reactor_type(), "timer");
    assert!(m.get_reactor("disk").is_none());
}

#[test]
fn start_all_reactors_runs_each() {
    let mut m = manager_with_all();
    assert!(!m.get_reactor("network").unwrap().is_running());
    m.start_all_reactors();
    for t in ["network", "file", "timer"] {
        assert!(m.get_reactor(t).unwrap().is_running());
    }
}

#[test]
fn register_waker_with_unknown_type_is_refused() {
    let mut m = manager_with_all();
    assert!(!m.register_waker("disk", 1, Waker { task_id: 1, executor_id: 1 }));
    assert!(m.register_waker("file", 1, Waker { task_id: 1, executor_id: 1 }));
    assert_eq!(m.get_reactor("file").unwrap().pending_wakers().len(), 1);
}

#[test]
fn reactor_register_replace_and_deregister() {
    let mut r = NetworkReactor::new();
    assert_eq!(r.reactor_type(), "network");
    r.register_waker(101, Waker { task_id: 1, executor_id: 1 });
    r.register_waker(101, Waker { task_id: 5, executor_id: 2 });
    assert_eq!(r.pending_wakers(), vec![(101, Waker { task_id: 5, executor_id: 2 })]);
    r.deregister_waker(101);
    assert!(r.pending_wakers().is_empty());
    r.deregister_waker(7);
    assert!(r.pending_wakers().is_empty());
    assert_eq!(FileReactor::new().reactor_type(), "file");
    assert_eq!(TimerReactor::new().reactor_type(), "timer");
}

#[test]
fn task_poll_registers_then_completes() {
    let mut m = manager_with_all();
    let mut t = FileTask::new(201);
    let w = Waker { task_id: 3, executor_id: 2 };
    assert!(matches!(t.poll(&w, &mut m), PollState::NotReady));
    assert_eq!(m.get_reactor("file").unwrap().pending_wakers(), vec![(201, w)]);
    match t.poll(&w, &mut m) {
        PollState::Ready(s) => assert_eq!(s, "文件任务 201 已完成"),
        PollState::NotReady => panic!("expected ready"),
    }
    match t.poll(&w, &mut m) {
        PollState::Ready(s) => assert_eq!(s, "文件任务 201 已完成"),
        PollState::NotReady => panic!("expected ready"),
    }
}

#[test]
fn task_without_its_reactor_still_completes() {
    let mut m: ReactorManager<AnyReactor> = ReactorManager::new();
    let mut t = NetworkTask::new(0);
    let w = Waker { task_id: 1, executor_id: 1 };
    assert!(matches!(t.poll(&w, &mut m), PollState::NotReady));
    assert!(m.list_reactors().is_empty());
    match t.poll(&w, &mut m) {
        PollState::Ready(s) => assert_eq!(s, "网络任务 0 已完成"),
        PollState::NotReady => panic!("expected ready"),
    }
}

#[test]
fn completion_text_of_large_ids() {
    let mut m = manager_with_all();
    let w = Waker { task_id: 1, executor_id: 1 };
    let mut t = TimerTask::new(usize::MAX);
    t.poll(&w, &mut m);
    match t.poll(&w, &mut m) {
        PollState::Ready(s) => assert_eq!(s, format!("定时器任务 {} 已完成", usize::MAX)),
        PollState::NotReady => panic!("expected ready"),
    }
    let mut t = NetworkTask::new(10);
    t.poll(&w, &mut m);
    match t.poll(&w, &mut m) {
        PollState::Ready(s) => assert_eq!(s, "网络任务 10 已完成"),
        PollState::NotReady => panic!("expected ready"),
    }
}

#[test]
fn spawn_on_unknown_executor_is_refused() {
    let mut registry: ExecutorRegistry<AnyTask> = ExecutorRegistry::new();
    assert!(matches!(
        registry.spawn_on(1, AnyTask::Network(NetworkTask::new(101))),
        Err(SpawnRefused::UnknownExecutor(AnyTask::Network(_)))
    ));
    registry.register_executor(1, Executor::new(1, "a".to_string()));
    assert!(matches!(registry.spawn_on(1, AnyTask::Network(NetworkTask::new(101))), Ok(101)));
    assert!(matches!(
        registry.spawn_on(1, AnyTask::File(FileTask::new(101))),
        Err(SpawnRefused::TaskIdInUse(AnyTask::File(_)))
    ));
    let mut reactors = manager_with_all();
    assert!(matches!(registry.run_executor(1, &mut reactors), Some(RunStep::Pending { task_id: 101 })));
    assert!(matches!(registry.run_executor(1, &mut reactors), Some(RunStep::Waiting { pending: 1 })));
}

#[test]
fn executor_name_and_wake_task() {
    let mut reactors = manager_with_all();
    let mut e: Executor<AnyTask> = Executor::new(2, "文件执行器".to_string());
    assert_eq!(e.get_name(), "文件执行器");
    assert!(e.spawn(AnyTask::File(FileTask::new(201))).is_ok());
    assert!(matches!(e.run_step(&mut reactors), RunStep::Pending { task_id: 201 }));
    e.wake_task(201);
    match e.run_step(&mut reactors) {
        RunStep::Completed { task_id, output } => {
            assert_eq!(task_id, 201);
            assert_eq!(output, "文件任务 201 已完成");
        }
        _ => panic!("expected completion"),
    }
    assert!(matches!(e.run_step(&mut reactors), RunStep::Finished));
}

#[test]
fn wakes_are_served_in_order() {
    let mut reactors = manager_with_all();
    let mut e: Executor<AnyTask> = Executor::new(1, "e".to_string());
    e.wake_task(9);
    e.wake_task(4);
    assert!(matches!(e.run_step(&mut reactors), RunStep::Skipped { task_id: 9 }));
    assert!(matches!(e.run_step(&mut reactors), RunStep::Skipped { task_id: 4 }));
}

#[test]
fn spawn_with_a_held_id_hands_the_task_back() {
    let mut reactors = manager_with_all();
    let mut e: Executor<AnyTask> = Executor::new(1, "e".to_string());
    assert!(matches!(e.spawn(AnyTask::Network(NetworkTask::new(5))), Ok(5)));
    assert!(matches!(e.spawn(AnyTask::File(FileTask::new(5))), Err(AnyTask::File(_))));
    assert!(matches!(e.run_step(&mut reactors), RunStep::Pending { task_id: 5 }));
    assert_eq!(reactors.get_reactor("network").unwrap().pending_wakers().len(), 1);
    assert!(reactors.get_reactor("file").unwrap().pending_wakers().is_empty());
    assert!(matches!(e.run_step(&mut reactors), RunStep::Waiting { pending: 1 }));
    e.wake_task(5);
    match e.run_step(&mut reactors) {
        RunStep::Completed { task_id, output } => {
            assert_eq!(task_id, 5);
            assert_eq!(output, "网络任务 5 已完成");
        }
        _ => panic!("expected the first task to complete"),
    }
    assert!(matches!(e.spawn(AnyTask::File(FileTask::new(5))), Ok(5)));
}

#[test]
fn fire_event_wakes_every_registered_waker() {
    let (mut registry, mut reactors): (ExecutorRegistry<AnyTask>, ReactorManager<AnyReactor>) =
        init_advanced_runtime();
    reactors.register_reactor("network", AnyReactor::Network(NetworkReactor::new()));
    reactors.register_reactor("file", AnyReactor::File(FileReactor::new()));
    registry.register_executor(1, Executor::new(1, "网络执行器".to_string()));
    registry.register_executor(2, Executor::new(2, "文件执行器".to_string()));
    assert!(registry.spawn_on(1, AnyTask::Network(NetworkTask::new(101))).is_ok());
    assert!(registry.spawn_on(1, AnyTask::Network(NetworkTask::new(102))).is_ok());
    assert!(registry.spawn_on(2, AnyTask::File(FileTask::new(201))).is_ok());
    for id in [1, 1, 1, 2, 2] {
        registry.run_executor(id, &mut reactors);
    }
    let mut fired = registry.fire_event(&reactors, "network");
    fired.sort_by_key(|p| p.0);
    assert_eq!(
        fired,
        vec![
            (101, Waker { task_id: 101, executor_id: 1 }),
            (102, Waker { task_id: 102, executor_id: 1 })
        ]
    );
    assert!(registry.fire_event(&reactors, "timer").is_empty());
    assert!(matches!(registry.run_executor(2, &mut reactors), Some(RunStep::Waiting { pending: 1 })));
    let mut done = Vec::new();
    for _ in 0..2 {
        if let Some(RunStep::Completed { task_id, .. }) = registry.run_executor(1, &mut reactors) {
            done.push(task_id);
        }
    }
    done.sort();
    assert_eq!(done, vec![101, 102]);
    assert!(matches!(registry.run_executor(1, &mut reactors), Some(RunStep::Finished)));
}

#[test]
fn remove_executor_forgets_it_and_keeps_order() {
    let mut registry: ExecutorRegistry<AnyTask> = ExecutorRegistry::new();
    registry.register_executor(1, Executor::new(1, "网络执行器".to_string()));
    registry.register_executor(2, Executor::new(2, "文件执行器".to_string()));
    registry.register_executor(3, Executor::new(3, "定时器执行器".to_string()));
    let removed = registry.remove_executor(2).unwrap();
    assert_eq!(removed.get_name(), "文件执行器");
    assert!(registry.get_executor(2).is_none());
    assert!(registry.remove_executor(2).is_none());
    assert_eq!(
        registry.list_executors(),
        vec![(1, "网络执行器".to_string()), (3, "定时器执行器".to_string())]
    );
    assert!(!Waker { task_id: 1, executor_id: 2 }.wake(&mut registry));
}

#[test]
fn stop_all_reactors_stops_each() {
    let mut m = manager_with_all();
    m.start_all_reactors();
    m.register_waker("timer", 3, Waker { task_id: 3, executor_id: 1 });
    m.stop_all_reactors();
    for t in ["network", "file", "timer"] {
        assert!(!m.get_reactor(t).unwrap().is_running());
    }
    assert_eq!(m.get_reactor("timer").unwrap().pending_wakers().len(), 1);
    assert_eq!(m.list_reactors(), vec!["network", "file", "timer"]);
}
