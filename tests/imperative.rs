use katas::imperative::ImperativeFrame;
use katas::imperative::ImperativeFrame::{Open, Spare, Strike};

#[test]
fn test_imperative_to_frame() {

    // Open on the first and last position
    let test_case = ImperativeFrame::to_frame(&vec![0, 0]).unwrap();
    assert_eq!(test_case, [Open(0, 0)]);

    // Strike on the first and last position
    let test_case = ImperativeFrame::to_frame(&vec![10, 2, 3]).unwrap();
    assert_eq!(test_case, [Strike(2, 3)]);

    // Spare on the first and last position
    let test_case = ImperativeFrame::to_frame(&vec![9, 1, 2]).unwrap();
    assert_eq!(test_case, [Spare(2)]);

    // Spare on first position then Open
    let test_case = ImperativeFrame::to_frame(&vec![9, 1, 2, 3]).unwrap();
    assert_eq!(test_case, [Spare(2), Open(2, 3)]);

    // 10 Open with 0 pins
    let test_case = ImperativeFrame::to_frame(&vec![0; 20]).unwrap();
    assert_eq!(test_case, vec![Open(0, 0); 10]);

    // 8 Open with 2 pins, 1 Spare and 1 Strike
    let test_case = ImperativeFrame::to_frame(&[vec![1; 16], vec![9, 1, 10, 2, 3]].concat()).unwrap();
    assert_eq!(test_case, [vec![Open(1, 1); 8], vec![Spare(10)], vec![Strike(2, 3)]].concat());

    // Impossible game: the last strike has one bonus roll instead of two
    let test_case = ImperativeFrame::to_frame(&[vec![1; 16], vec![9, 1, 10, 2]].concat());
    assert_eq!(test_case, None);
}

#[test]
fn test_imperative_to_score_list() {

    // 10 x Open(1,1): 20 points
    let test_case = ImperativeFrame::frame_list_to_score(&vec![Open(1, 1); 10]);
    assert_eq!(test_case, vec![2; 10]);
    assert_eq!(test_case.iter().sum::<u32>(), 20);

    // 8 x Open(1,1), Spare, Strike: 51 points
    let test_case = ImperativeFrame::frame_list_to_score(&[vec![Open(1, 1); 8], vec![Spare(10)], vec![Strike(2, 3)]].concat());
    assert_eq!(test_case, [vec![2; 8], vec![20], vec![15]].concat());
    assert_eq!(test_case.iter().sum::<u32>(), 51);

    // Perfect game 10 Strikes 300 points
    let test_case = ImperativeFrame::frame_list_to_score(&vec![Strike(10, 10); 10]);
    assert_eq!(test_case, vec![30; 10]);
    assert_eq!(test_case.iter().sum::<u32>(), 300);
}

#[test]
fn twenty_ones_score_twenty() {
    let frames = ImperativeFrame::to_frame(&vec![1u32; 20]).unwrap();
    assert_eq!(frames, vec![Open(1, 1); 10]);
    let scores = ImperativeFrame::frame_list_to_score(&frames);
    assert_eq!(scores, vec![2; 10]);
    assert_eq!(scores.iter().sum::<u32>(), 20);
}

#[test]
fn spare_strike_ending_scores_fifty_one() {
    let rolls = [vec![1u32; 16], vec![9, 1, 10, 2, 3]].concat();
    let frames = ImperativeFrame::to_frame(&rolls).unwrap();
    let scores = ImperativeFrame::frame_list_to_score(&frames);
    assert_eq!(scores, [vec![2; 8], vec![20], vec![15]].concat());
    assert_eq!(scores.iter().sum::<u32>(), 51);
}

#[test]
fn chunk_to_frame_reads_the_first_frame() {
    assert_eq!(ImperativeFrame::chunk_to_frame(&[10, 3, 4, 5]), Some(Strike(3, 4)));
    assert_eq!(ImperativeFrame::chunk_to_frame(&[4, 6, 8]), Some(Spare(8)));
    assert_eq!(ImperativeFrame::chunk_to_frame(&[4, 5, 8]), Some(Open(4, 5)));
    assert_eq!(ImperativeFrame::chunk_to_frame(&[4, 5]), Some(Open(4, 5)));
    assert_eq!(ImperativeFrame::chunk_to_frame(&[4, 6]), None);
    assert_eq!(ImperativeFrame::chunk_to_frame(&[10, 3]), None);
    assert_eq!(ImperativeFrame::chunk_to_frame(&[7]), None);
    assert_eq!(ImperativeFrame::chunk_to_frame(&[]), None);
}

#[test]
fn mixed_game_scores_one_sixty_seven() {
    let rolls = vec![10u32, 7, 3, 9, 0, 10, 0, 8, 8, 2, 0, 6, 10, 10, 10, 8, 1];
    let frames = ImperativeFrame::to_frame(&rolls).unwrap();
    assert_eq!(frames.len(), 10);
    let scores = ImperativeFrame::frame_list_to_score(&frames);
    assert_eq!(scores, vec![20, 19, 9, 18, 8, 10, 6, 30, 28, 19]);
    assert_eq!(scores.iter().sum::<u32>(), 167);
}

#[test]
fn flattened_frames_segment_the_same() {
    let rolls = vec![3u32, 4, 10, 2, 5, 10, 10, 1, 2];
    let frames = ImperativeFrame::to_frame(&rolls).unwrap();
    assert_eq!(frames, vec![Open(3, 4), Strike(2, 5), Open(2, 5), Strike(10, 1), Strike(1, 2)]);
    let mut flat: Vec<u32> = Vec::new();
    for (i, f) in frames.iter().enumerate() {
        match *f {
            Open(a, b) => flat.extend([a, b]),
            Strike(b1, b2) if i + 1 == frames.len() => flat.extend([10, b1, b2]),
            Strike(..) => flat.push(10),
            ImperativeFrame::Spare(_) => unreachable!(),
        }
    }
    assert_eq!(flat, rolls);
    assert_eq!(ImperativeFrame::to_frame(&flat), Some(frames));
}
