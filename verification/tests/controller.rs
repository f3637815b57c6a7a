use memhog::chunks::{next_chunk_size, CHUNK_CAP};
use memhog::controller::{AllocationFailure, AllocationRecord, Controller, HOLD_SECONDS};
use memhog::size::parse_size_with_unit;

fn run_to_completion(controller: &mut Controller) -> Vec<usize> {
    let mut progress: Vec<usize> = Vec::new();
    while !controller.is_complete() {
        progress.push(controller.allocated());
        let expected: usize = controller.next_chunk_size();
        assert_eq!(controller.allocate_next(), Ok(expected));
    }
    progress
}

#[test]
fn fixed_parameters() {
    assert_eq!(CHUNK_CAP, 10 * 1024 * 1024);
    assert_eq!(HOLD_SECONDS, 10);
}

#[test]
fn twenty_five_mebibytes_take_three_chunks() {
    let total: usize = parse_size_with_unit("25M").unwrap();
    assert_eq!(total, 26214400);
    let mut controller: Controller = Controller::new(total);
    let progress: Vec<usize> = run_to_completion(&mut controller);
    assert_eq!(progress, vec![0, 10485760, 20971520]);
    assert_eq!(controller.chunks_held(), 3);
    assert_eq!(controller.chunk_size(0), 10485760);
    assert_eq!(controller.chunk_size(1), 10485760);
    assert_eq!(controller.chunk_size(2), 5242880);
    assert_eq!(controller.allocated(), 26214400);
    assert_eq!(controller.requested(), 26214400);
    assert!(controller.is_complete());
    assert_eq!(controller.release(), vec![10485760, 10485760, 5242880]);
}

#[test]
fn zero_bytes_claim_nothing() {
    let total: usize = parse_size_with_unit("0").unwrap();
    let mut controller: Controller = Controller::new(total);
    assert!(controller.is_complete());
    assert_eq!(controller.next_chunk_size(), 0);
    assert_eq!(controller.allocate_next(), Ok(0));
    assert_eq!(controller.chunks_held(), 0);
    assert_eq!(controller.allocated(), 0);
    assert_eq!(controller.release(), Vec::<usize>::new());
}

#[test]
fn a_step_after_completion_changes_nothing() {
    let mut controller: Controller = Controller::new(100);
    assert_eq!(controller.allocate_next(), Ok(100));
    assert!(controller.is_complete());
    assert_eq!(controller.allocate_next(), Ok(0));
    assert_eq!(controller.chunks_held(), 1);
    assert_eq!(controller.allocated(), 100);
}

#[test]
fn chunks_are_zero_filled() {
    let mut controller: Controller = Controller::new(CHUNK_CAP + 4096);
    run_to_completion(&mut controller);
    assert_eq!(controller.chunks_held(), 2);
    let mut chunk: usize = 0;
    while chunk < controller.chunks_held() {
        let record: &AllocationRecord = controller.record(chunk);
        assert_eq!(record.size(), controller.chunk_size(chunk));
        let mut index: usize = 0;
        while index < record.size() {
            assert_eq!(record.byte(index), 0);
            index += 1;
        }
        chunk += 1;
    }
}

#[test]
fn exact_multiple_of_the_cap_has_no_short_chunk() {
    let mut controller: Controller = Controller::new(2 * CHUNK_CAP);
    run_to_completion(&mut controller);
    assert_eq!(controller.chunks_held(), 2);
    assert_eq!(controller.chunk_size(0), CHUNK_CAP);
    assert_eq!(controller.chunk_size(1), CHUNK_CAP);
    assert_eq!(controller.release(), vec![CHUNK_CAP, CHUNK_CAP]);
}

#[test]
fn one_byte_over_the_cap_takes_a_chunk_of_one() {
    let mut controller: Controller = Controller::new(CHUNK_CAP + 1);
    run_to_completion(&mut controller);
    assert_eq!(controller.chunks_held(), 2);
    assert_eq!(controller.chunk_size(0), CHUNK_CAP);
    assert_eq!(controller.chunk_size(1), 1);
    assert_eq!(controller.allocated(), CHUNK_CAP + 1);
    assert_eq!(controller.release(), vec![CHUNK_CAP, 1]);
}

#[test]
fn small_request_is_one_chunk() {
    let mut controller: Controller = Controller::new(1);
    assert!(!controller.is_complete());
    assert_eq!(controller.allocate_next(), Ok(1));
    assert!(controller.is_complete());
    assert_eq!(controller.chunks_held(), 1);
    assert_eq!(controller.release(), vec![1]);
}

#[test]
fn chunk_sizes_add_up_to_the_request() {
    let requests: Vec<usize> = vec![0, 1, 7, 4096, CHUNK_CAP - 1, CHUNK_CAP, 31457281];
    for requested in requests {
        let mut controller: Controller = Controller::new(requested);
        run_to_completion(&mut controller);
        let mut sum: usize = 0;
        let mut chunk: usize = 0;
        while chunk < controller.chunks_held() {
            let size: usize = controller.chunk_size(chunk);
            assert!(size > 0 && size <= CHUNK_CAP);
            if chunk + 1 < controller.chunks_held() {
                assert_eq!(size, CHUNK_CAP);
            }
            sum += size;
            chunk += 1;
        }
        assert_eq!(sum, requested);
        assert_eq!(controller.allocated(), requested);
        assert_eq!(controller.chunks_held(), (requested + CHUNK_CAP - 1) / CHUNK_CAP);
        let released: Vec<usize> = controller.release();
        assert_eq!(released.iter().sum::<usize>(), requested);
    }
}

#[test]
fn next_chunk_size_is_cap_or_remainder() {
    assert_eq!(next_chunk_size(26214400, 0), 10485760);
    assert_eq!(next_chunk_size(26214400, 10485760), 10485760);
    assert_eq!(next_chunk_size(26214400, 20971520), 5242880);
    assert_eq!(next_chunk_size(26214400, 26214400), 0);
    assert_eq!(next_chunk_size(5, 9), 0);
    assert_eq!(next_chunk_size(0, 0), 0);
    assert_eq!(next_chunk_size(usize::MAX, 0), CHUNK_CAP);
    assert_eq!(next_chunk_size(usize::MAX, usize::MAX - 3), 3);
}

#[test]
fn refused_chunk_is_a_failure_and_changes_nothing() {
    let mut controller: Controller = Controller::new(26214400);
    assert_eq!(controller.allocate_next(), Ok(10485760));
    assert_eq!(
        controller.record_outcome(None),
        Err(AllocationFailure { chunk_size: 10485760 })
    );
    assert_eq!(controller.chunks_held(), 1);
    assert_eq!(controller.allocated(), 10485760);
    assert!(!controller.is_complete());
}

#[test]
fn granted_chunk_is_recorded() {
    let mut controller: Controller = Controller::new(12);
    let block: Option<AllocationRecord> = AllocationRecord::zeroed(12);
    assert!(block.is_some());
    assert_eq!(controller.record_outcome(block), Ok(12));
    assert_eq!(controller.chunks_held(), 1);
    assert_eq!(controller.allocated(), 12);
    assert!(controller.is_complete());
}

#[test]
fn zeroed_record_has_the_size_asked_for() {
    let record: AllocationRecord = AllocationRecord::zeroed(4096).unwrap();
    assert_eq!(record.size(), 4096);
    assert_eq!(record.byte(0), 0);
    assert_eq!(record.byte(4095), 0);
    let empty: AllocationRecord = AllocationRecord::zeroed(0).unwrap();
    assert_eq!(empty.size(), 0);
}

#[test]
fn impossible_block_is_refused() {
    assert!(AllocationRecord::zeroed(usize::MAX).is_none());
}

#[test]
fn allocation_failure_message() {
    assert_eq!(AllocationFailure { chunk_size: 8 }.message(), "Failed to allocate memory");
}

#[test]
fn block_of_no_bytes_is_always_had() {
    let record: Option<AllocationRecord> = AllocationRecord::zeroed(0);
    assert!(record.is_some());
    assert_eq!(record.unwrap().size(), 0);
}

#[test]
fn granted_reservation_becomes_a_zeroed_record() {
    let record: AllocationRecord =
        AllocationRecord::from_reservation(Vec::new(), true, 64).unwrap();
    assert_eq!(record.size(), 64);
    let mut index: usize = 0;
    while index < 64 {
        assert_eq!(record.byte(index), 0);
        index += 1;
    }
}

#[test]
fn granted_reservation_drops_what_the_buffer_held() {
    let buffer: Vec<u8> = vec![7, 7, 7, 7, 7, 7];
    let record: AllocationRecord = AllocationRecord::from_reservation(buffer, true, 4).unwrap();
    assert_eq!(record.size(), 4);
    assert_eq!(record.byte(0), 0);
    assert_eq!(record.byte(3), 0);
    let longer: AllocationRecord =
        AllocationRecord::from_reservation(vec![9, 9], true, 5).unwrap();
    assert_eq!(longer.size(), 5);
    assert_eq!(longer.byte(0), 0);
    assert_eq!(longer.byte(1), 0);
    assert_eq!(longer.byte(4), 0);
}

#[test]
fn refused_reservation_gives_no_record() {
    assert!(AllocationRecord::from_reservation(Vec::new(), false, 64).is_none());
    assert!(AllocationRecord::from_reservation(Vec::new(), false, 0).is_none());
    assert!(AllocationRecord::from_reservation(vec![1, 2, 3], false, 3).is_none());
}
