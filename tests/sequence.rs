use videostream::DecodeOutcome::{Failed, Frame, NoFrame};
use videostream::{DecodeOutcome, Event, Frames, Step};

/// Pulls a sequence over `stream` to its end on a synthetic source; returns
/// the packets handed to the decoder (by position), the frames handed out,
/// and whether a decode error ended it.
fn run(stream: usize, packets: &[(usize, DecodeOutcome)]) -> (Vec<usize>, usize, bool) {
    let mut frames = Frames::new(stream);
    let mut decoded = Vec::new();
    let mut yielded = 0;
    let mut next = 0;
    loop {
        let event = match packets.get(next) {
            Some(&(index, _)) => Event::Packet(index),
            None => Event::Exhausted,
        };
        match frames.step(event) {
            Step::Decode => {
                decoded.push(next);
                match frames.step(Event::Decoded(packets[next].1)) {
                    Step::Yield => yielded += 1,
                    Step::Pull => {}
                    Step::Abort => return (decoded, yielded, true),
                    other => panic!("unexpected step {:?}", other),
                }
                next += 1;
            }
            Step::Pull => next += 1,
            Step::End => return (decoded, yielded, false),
            other => panic!("unexpected step {:?}", other),
        }
    }
}

#[test]
fn only_the_chosen_stream_is_decoded() {
    let packets = [(0, Frame), (1, Frame), (0, NoFrame), (1, Frame), (0, Frame), (1, Frame), (0, Frame)];
    let (decoded, yielded, aborted) = run(0, &packets);
    assert_eq!(decoded, vec![0, 2, 4, 6]);
    assert_eq!(yielded, 3);
    assert!(!aborted);
    let (decoded, yielded, _) = run(1, &packets);
    assert_eq!(decoded, vec![1, 3, 5]);
    assert_eq!(yielded, 3);
}

#[test]
fn ten_frame_clip_yields_ten_frames() {
    let packets: Vec<(usize, DecodeOutcome)> = (0..20)
        .map(|i| if i % 2 == 0 { (0, DecodeOutcome::Frame) } else { (1, DecodeOutcome::Frame) })
        .collect();
    let (decoded, yielded, aborted) = run(0, &packets);
    assert_eq!(decoded.len(), 10);
    assert_eq!(yielded, 10);
    assert!(!aborted);
}

#[test]
fn corrupt_fifth_packet_ends_the_sequence() {
    let packets = [(0, Frame), (0, Frame), (0, Frame), (0, Frame), (0, Failed), (0, Frame), (0, Frame)];
    let (decoded, yielded, aborted) = run(0, &packets);
    assert_eq!(decoded, vec![0, 1, 2, 3, 4]);
    assert_eq!(yielded, 4);
    assert!(aborted);
}

#[test]
fn ended_sequence_stays_ended() {
    let mut frames = Frames::new(3);
    assert_eq!(frames.stream(), 3);
    assert!(!frames.is_ended());
    assert_eq!(frames.step(Event::Decoded(DecodeOutcome::Failed)), Step::Abort);
    assert!(frames.is_ended());
    assert_eq!(frames.step(Event::Packet(3)), Step::End);
    assert_eq!(frames.step(Event::Decoded(DecodeOutcome::Frame)), Step::End);
    assert_eq!(frames.stream(), 3);
}

#[test]
fn exhausted_source_ends_without_error() {
    let mut frames = Frames::new(0);
    assert_eq!(frames.step(Event::Exhausted), Step::End);
    assert!(frames.is_ended());
    assert_eq!(run(0, &[]), (vec![], 0, false));
}

#[test]
fn packets_without_a_frame_are_not_yielded() {
    let mut frames = Frames::new(0);
    assert_eq!(frames.step(Event::Packet(0)), Step::Decode);
    assert_eq!(frames.step(Event::Decoded(DecodeOutcome::NoFrame)), Step::Pull);
    assert_eq!(frames.step(Event::Packet(2)), Step::Pull);
    assert_eq!(frames.step(Event::Packet(0)), Step::Decode);
    assert_eq!(frames.step(Event::Decoded(DecodeOutcome::Frame)), Step::Yield);
    assert!(!frames.is_ended());
}
