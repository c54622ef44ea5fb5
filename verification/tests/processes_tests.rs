use marzipan::generic_emulator::processes::{convert_warrior_id, ProcessQueueSet};
use marzipan::{CoreSettings, EmulatorError};

fn queues(warriors: u64, processes: u64) -> ProcessQueueSet {
    ProcessQueueSet::new(&CoreSettings {
        core_size: 8000,
        pspace_size: 0,
        warriors,
        processes,
        bytecode_format: None,
    })
}

#[test]
fn queues_start_empty() {
    let pq = queues(3, 4);
    for warrior in 0..3 {
        assert_eq!(pq.read_queue(warrior), Ok(vec![]));
    }
    assert_eq!(pq.active_warriors(), Vec::<u64>::new());
    assert!(matches!(
        pq.read_queue(3),
        Err(EmulatorError::InternalError(_))
    ));
    let none = queues(0, 4);
    assert_eq!(none.active_warriors(), Vec::<u64>::new());
    assert!(matches!(
        none.read_queue(0),
        Err(EmulatorError::InternalError(_))
    ));
}

#[test]
fn a_queue_is_first_in_first_out() {
    let mut pq = queues(2, 4);
    assert_eq!(pq.push_back(7, 1), Ok(()));
    assert_eq!(pq.push_back(8, 1), Ok(()));
    assert_eq!(pq.push_back(9, 1), Ok(()));
    assert_eq!(pq.read_queue(1), Ok(vec![7, 8, 9]));
    assert_eq!(pq.read_queue(0), Ok(vec![]));
    assert_eq!(pq.pop(1), Ok(Some(7)));
    assert_eq!(pq.pop(1), Ok(Some(8)));
    assert_eq!(pq.read_queue(1), Ok(vec![9]));
    assert_eq!(pq.pop(1), Ok(Some(9)));
    assert_eq!(pq.pop(1), Ok(None));
    assert_eq!(pq.pop(0), Ok(None));
    assert_eq!(pq.read_queue(1), Ok(vec![]));
}

#[test]
fn a_full_queue_drops_what_is_pushed() {
    let mut pq = queues(1, 3);
    for pc in 0..10 {
        assert_eq!(pq.push_back(pc, 0), Ok(()));
    }
    assert_eq!(pq.read_queue(0), Ok(vec![0, 1, 2]));
    assert_eq!(pq.pop(0), Ok(Some(0)));
    assert_eq!(pq.push_back(10, 0), Ok(()));
    assert_eq!(pq.push_back(11, 0), Ok(()));
    assert_eq!(pq.read_queue(0), Ok(vec![1, 2, 10]));
    let mut never = queues(1, 0);
    assert_eq!(never.push_back(1, 0), Ok(()));
    assert_eq!(never.read_queue(0), Ok(vec![]));
}

#[test]
fn there_is_no_queue_for_an_unknown_warrior() {
    let mut pq = queues(2, 3);
    assert!(matches!(pq.pop(2), Err(EmulatorError::InternalError(_))));
    assert!(matches!(
        pq.push_back(1, 2),
        Err(EmulatorError::InternalError(_))
    ));
    assert!(matches!(
        pq.replace_queue(2, &[1]),
        Err(EmulatorError::InternalError(_))
    ));
    assert!(matches!(
        pq.pop(u64::MAX),
        Err(EmulatorError::InternalError(_))
    ));
    assert_eq!(pq.read_queue(0), Ok(vec![]));
    assert_eq!(pq.read_queue(1), Ok(vec![]));
    assert_eq!(convert_warrior_id(5), Ok(5));
    assert_eq!(convert_warrior_id(0), Ok(0));
}

#[test]
fn replace_takes_the_list_as_it_is() {
    let mut pq = queues(2, 3);
    pq.push_back(5, 0).unwrap();
    assert_eq!(pq.replace_queue(0, &[9, 8, 7]), Ok(()));
    assert_eq!(pq.read_queue(0), Ok(vec![9, 8, 7]));
    assert!(matches!(
        pq.replace_queue(0, &[1, 2, 3, 4]),
        Err(EmulatorError::InternalError(_))
    ));
    assert_eq!(pq.read_queue(0), Ok(vec![9, 8, 7]));
    assert_eq!(pq.replace_queue(0, &[]), Ok(()));
    assert_eq!(pq.read_queue(0), Ok(vec![]));
    assert_eq!(pq.read_queue(1), Ok(vec![]));
}

#[test]
fn active_warriors_are_listed_in_ascending_order() {
    let mut pq = queues(5, 3);
    pq.push_back(1, 4).unwrap();
    pq.push_back(1, 1).unwrap();
    pq.push_back(1, 3).unwrap();
    assert_eq!(pq.active_warriors(), vec![1, 3, 4]);
    pq.pop(3).unwrap();
    assert_eq!(pq.active_warriors(), vec![1, 4]);
    pq.replace_queue(0, &[2]).unwrap();
    assert_eq!(pq.active_warriors(), vec![0, 1, 4]);
    pq.reset_queues();
    assert_eq!(pq.active_warriors(), Vec::<u64>::new());
    for warrior in 0..5 {
        assert_eq!(pq.read_queue(warrior), Ok(vec![]));
    }
    // The capacity outlives a reset.
    for pc in 0..5 {
        pq.push_back(pc, 2).unwrap();
    }
    assert_eq!(pq.read_queue(2), Ok(vec![0, 1, 2]));
}
