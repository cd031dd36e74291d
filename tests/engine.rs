use shred::overwrite::{pass_buffer, FillMode, PassAction, PassCursor, BUFFER_SIZE};
use shred::plan::pass_plan;

fn actions(size: u64, block: usize) -> Vec<PassAction> {
    let mut cursor = PassCursor::new(size, block);
    let mut out = Vec::new();
    loop {
        let action = cursor.next_action();
        out.push(action);
        if action == PassAction::Finished {
            break;
        }
        cursor.complete(action);
        assert!(cursor.bytes_written() <= size);
    }
    assert!(cursor.is_done());
    out
}

fn chunk_lengths(size: u64, block: usize) -> Vec<usize> {
    actions(size, block)
        .into_iter()
        .filter_map(|a| match a {
            PassAction::Write(n) => Some(n),
            _ => None,
        })
        .collect()
}

fn run_pass(image: &mut Vec<u8>, buffer: &[u8]) -> usize {
    let mut cursor = PassCursor::new(image.len() as u64, buffer.len());
    let mut pos = 0usize;
    let mut writes = 0usize;
    loop {
        let action = cursor.next_action();
        match action {
            PassAction::SeekToStart => pos = 0,
            PassAction::Write(n) => {
                for (i, b) in buffer[..n].iter().enumerate() {
                    if pos + i < image.len() {
                        image[pos + i] = *b;
                    } else {
                        image.push(*b);
                    }
                }
                pos += n;
                writes += 1;
            }
            PassAction::Flush => {}
            PassAction::Finished => break,
        }
        cursor.complete(action);
    }
    writes
}

#[test]
fn chunks_of_ten_thousand_bytes() {
    assert_eq!(chunk_lengths(10_000, BUFFER_SIZE), vec![4096, 4096, 1808]);
}

#[test]
fn chunks_of_exact_multiple() {
    assert_eq!(chunk_lengths(8192, BUFFER_SIZE), vec![4096, 4096]);
}

#[test]
fn chunks_of_small_file() {
    assert_eq!(chunk_lengths(5, BUFFER_SIZE), vec![5]);
}

#[test]
fn chunks_of_empty_file() {
    assert_eq!(chunk_lengths(0, BUFFER_SIZE), Vec::<usize>::new());
}

#[test]
fn chunk_counts_match_division() {
    for size in [0u64, 1, 7, 9, 10, 11, 99, 100, 101] {
        let lens = chunk_lengths(size, 10);
        let full = lens.iter().filter(|&&n| n == 10).count() as u64;
        assert_eq!(full, size / 10);
        let rest: Vec<usize> = lens.iter().copied().filter(|&n| n != 10).collect();
        if size % 10 == 0 {
            assert!(rest.is_empty());
        } else {
            assert_eq!(rest, vec![(size % 10) as usize]);
        }
        assert_eq!(lens.iter().sum::<usize>() as u64, size);
    }
}

#[test]
fn cursor_reports_progress() {
    let mut cursor = PassCursor::new(5000, BUFFER_SIZE);
    assert_eq!(cursor.bytes_written(), 0);
    assert_eq!(cursor.next_action(), PassAction::SeekToStart);
    cursor.complete(PassAction::SeekToStart);
    assert_eq!(cursor.next_action(), PassAction::Write(4096));
    cursor.complete(PassAction::Write(4096));
    assert_eq!(cursor.bytes_written(), 4096);
    assert!(!cursor.is_done());
    assert_eq!(cursor.next_action(), PassAction::Write(904));
    cursor.complete(PassAction::Write(904));
    assert_eq!(cursor.bytes_written(), 5000);
    assert_eq!(cursor.next_action(), PassAction::Flush);
    assert!(!cursor.is_done());
    cursor.complete(PassAction::Flush);
    assert!(cursor.is_done());
    assert_eq!(cursor.next_action(), PassAction::Finished);
}

#[test]
fn pass_seeks_first_and_flushes_last() {
    assert_eq!(
        actions(10_000, BUFFER_SIZE),
        vec![
            PassAction::SeekToStart,
            PassAction::Write(4096),
            PassAction::Write(4096),
            PassAction::Write(1808),
            PassAction::Flush,
            PassAction::Finished,
        ]
    );
}

#[test]
fn empty_file_pass_still_flushes() {
    assert_eq!(
        actions(0, BUFFER_SIZE),
        vec![PassAction::SeekToStart, PassAction::Flush, PassAction::Finished]
    );
}

#[test]
fn zero_buffer_is_all_zero() {
    let buffer = pass_buffer(FillMode::Zero);
    assert_eq!(buffer.len(), BUFFER_SIZE);
    assert!(buffer.iter().all(|&b| b == 0));
}

#[test]
fn random_buffer_has_full_size() {
    let buffer = pass_buffer(FillMode::Random);
    assert_eq!(buffer.len(), BUFFER_SIZE);
    assert!(buffer.iter().any(|&b| b != 0));
}

#[test]
fn random_buffers_differ() {
    let a = pass_buffer(FillMode::Random);
    let b = pass_buffer(FillMode::Random);
    assert_ne!(a, b);
}

#[test]
fn random_passes_on_two_files_differ() {
    let mut first = vec![0u8; 6000];
    let mut second = vec![0u8; 6000];
    run_pass(&mut first, &pass_buffer(FillMode::Random));
    run_pass(&mut second, &pass_buffer(FillMode::Random));
    assert_ne!(first, second);
}

#[test]
fn zero_pass_clears_every_byte() {
    let mut image: Vec<u8> = (0..9000u32).map(|i| (i % 251) as u8 + 1).collect();
    run_pass(&mut image, &pass_buffer(FillMode::Zero));
    assert_eq!(image.len(), 9000);
    assert!(image.iter().all(|&b| b == 0));
}

#[test]
fn pass_repeats_buffer_over_file() {
    let mut image = vec![0xAAu8; 23];
    let buffer: Vec<u8> = (1..=10u8).collect();
    let writes = run_pass(&mut image, &buffer);
    assert_eq!(writes, 3);
    assert_eq!(image.len(), 23);
    for (i, b) in image.iter().enumerate() {
        assert_eq!(*b, buffer[i % 10]);
    }
}

#[test]
fn three_random_passes_keep_length() {
    let original: Vec<u8> = (0..10_000u32).map(|i| (i % 256) as u8).collect();
    let mut image = original.clone();
    let plan = pass_plan(3, false);
    assert_eq!(plan, vec![FillMode::Random; 3]);
    let mut previous = original.clone();
    for mode in plan {
        let writes = run_pass(&mut image, &pass_buffer(mode));
        assert_eq!(writes, 3);
        assert_eq!(image.len(), 10_000);
        assert_ne!(image, original);
        assert_ne!(image, previous);
        previous = image.clone();
    }
}

#[test]
fn empty_file_gets_no_writes() {
    let mut image: Vec<u8> = Vec::new();
    for mode in pass_plan(1, false) {
        assert_eq!(run_pass(&mut image, &pass_buffer(mode)), 0);
    }
    assert!(image.is_empty());
}

#[test]
fn plan_appends_zero_pass() {
    assert_eq!(
        pass_plan(2, true),
        vec![FillMode::Random, FillMode::Random, FillMode::Zero]
    );
}

#[test]
fn plan_without_passes() {
    assert!(pass_plan(0, false).is_empty());
    assert_eq!(pass_plan(0, true), vec![FillMode::Zero]);
}
