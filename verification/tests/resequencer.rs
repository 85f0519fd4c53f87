use srad::app::resequencer::{DrainResult, ProcessResult, Resequencer};

struct TmpMessage {}

impl TmpMessage {
    pub fn new() -> Self {
        Self {}
    }
}

#[test]
fn good_order() {
    let mut re = Resequencer::new();

    //Test wrapping
    for i in 0..=u8::MAX {
        assert_eq!(re.next_sequence(), i);
        assert!(matches!(re.process(i, TmpMessage::new()), ProcessResult::MessageNextInSequence(_)));
        assert!(matches!(re.drain(), DrainResult::Empty));
    }
    assert_eq!(re.next_sequence(), 0);
    assert!(matches!(re.process(0, TmpMessage::new()), ProcessResult::MessageNextInSequence(_)));
    assert!(matches!(re.drain(), DrainResult::Empty));
}

#[test]
fn out_of_sequence() {
    let mut re = Resequencer::new();
    assert!(matches!(re.process(0, TmpMessage::new()), ProcessResult::MessageNextInSequence(_)));
    assert!(matches!(re.drain(), DrainResult::Empty));

    assert_eq!(re.next_sequence(), 1);
    assert!(matches!(re.process(2, TmpMessage::new()), ProcessResult::OutOfSequenceMessageInserted));
    assert!(matches!(re.drain(), DrainResult::SequenceMissing));

    assert_eq!(re.next_sequence(), 1);
    assert!(matches!(re.process(1, TmpMessage::new()), ProcessResult::MessageNextInSequence(_)));
    assert_eq!(re.next_sequence(), 2);
    assert!(matches!(re.drain(), DrainResult::Message(_)));
    assert_eq!(re.next_sequence(), 3);

    assert!(matches!(re.process(5, TmpMessage::new()), ProcessResult::OutOfSequenceMessageInserted));
    assert!(matches!(re.process(4, TmpMessage::new()), ProcessResult::OutOfSequenceMessageInserted));
    assert!(matches!(re.process(7, TmpMessage::new()), ProcessResult::OutOfSequenceMessageInserted));
    assert!(matches!(re.process(8, TmpMessage::new()), ProcessResult::OutOfSequenceMessageInserted));

    assert!(matches!(re.process(3, TmpMessage::new()), ProcessResult::MessageNextInSequence(_)));
    assert_eq!(re.next_sequence(), 4);
    assert!(matches!(re.drain(), DrainResult::Message(_)));
    assert!(matches!(re.drain(), DrainResult::Message(_)));
    assert!(matches!(re.drain(), DrainResult::SequenceMissing));
    assert_eq!(re.next_sequence(), 6);

    assert!(matches!(re.process(6, TmpMessage::new()), ProcessResult::MessageNextInSequence(_)));
    assert!(matches!(re.drain(), DrainResult::Message(_)));
    assert!(matches!(re.drain(), DrainResult::Message(_)));
    assert!(matches!(re.drain(), DrainResult::Empty));

    assert!(matches!(re.process(9, TmpMessage::new()), ProcessResult::MessageNextInSequence(_)));
    assert!(matches!(re.process(11, TmpMessage::new()), ProcessResult::OutOfSequenceMessageInserted));
    assert!(matches!(re.process(10, TmpMessage::new()), ProcessResult::MessageNextInSequence(_)));
    assert!(matches!(re.drain(), DrainResult::Message(_)));
    assert!(matches!(re.drain(), DrainResult::Empty));
}

#[test]
fn out_of_sequence_duplicate() {
    let mut re = Resequencer::new();
    assert!(matches!(re.process(0, TmpMessage::new()), ProcessResult::MessageNextInSequence(_)));
    assert_eq!(re.next_sequence(), 1);
    assert!(matches!(re.process(3, TmpMessage::new()), ProcessResult::OutOfSequenceMessageInserted));
    assert!(matches!(re.process(2, TmpMessage::new()), ProcessResult::OutOfSequenceMessageInserted));
    assert!(matches!(re.process(1, TmpMessage::new()), ProcessResult::MessageNextInSequence(_)));
    assert!(matches!(re.process(2, TmpMessage::new()), ProcessResult::DuplicateMessageSequence));
}

#[test]
fn out_of_sequence_wrapping() {
    let mut re = Resequencer::new();

    //Test wrapping
    for i in 0..u8::MAX {
        assert_eq!(re.next_sequence(), i);
        assert!(matches!(re.process(i, TmpMessage::new()), ProcessResult::MessageNextInSequence(_)));
        assert!(matches!(re.drain(), DrainResult::Empty));
    }

    assert_eq!(re.next_sequence(), 255);
    assert!(matches!(re.process(0, TmpMessage::new()), ProcessResult::OutOfSequenceMessageInserted));

    assert_eq!(re.next_sequence(), 255);
    assert!(matches!(re.process(u8::MAX, TmpMessage::new()), ProcessResult::MessageNextInSequence(_)));
    assert_eq!(re.next_sequence(), 0);
    assert!(matches!(re.drain(), DrainResult::Message(_)));
    assert_eq!(re.next_sequence(), 1);
    assert!(matches!(re.drain(), DrainResult::Empty));
}

#[test]
fn swapped_pair_is_delivered_in_order() {
    let mut re: Resequencer<u32> = Resequencer::new();
    assert!(matches!(re.process(1, 11), ProcessResult::OutOfSequenceMessageInserted));
    match re.process(0, 10) {
        ProcessResult::MessageNextInSequence(m) => assert_eq!(m, 10),
        _ => panic!("message 0 should be next in sequence"),
    }
    match re.drain() {
        DrainResult::Message(m) => assert_eq!(m, 11),
        _ => panic!("message 1 should be drained"),
    }
    assert!(matches!(re.drain(), DrainResult::Empty));
    assert_eq!(re.next_sequence(), 2);
}

#[test]
fn held_back_messages_drain_in_sequence_order() {
    let mut re: Resequencer<u8> = Resequencer::new();
    assert!(matches!(re.process(0, 0), ProcessResult::MessageNextInSequence(0)));
    for s in [4u8, 2, 3] {
        assert!(matches!(re.process(s, s), ProcessResult::OutOfSequenceMessageInserted));
    }
    assert!(matches!(re.process(1, 1), ProcessResult::MessageNextInSequence(1)));
    let mut drained = Vec::new();
    while let DrainResult::Message(m) = re.drain() {
        drained.push(m);
    }
    assert_eq!(drained, vec![2, 3, 4]);
    assert_eq!(re.next_sequence(), 5);
}

#[test]
fn reset_forgets_held_back_messages() {
    let mut re: Resequencer<u8> = Resequencer::new();
    assert!(matches!(re.process(3, 3), ProcessResult::OutOfSequenceMessageInserted));
    re.reset();
    re.set_next_sequence(1);
    assert_eq!(re.next_sequence(), 1);
    assert!(matches!(re.drain(), DrainResult::Empty));
    assert!(matches!(re.process(1, 1), ProcessResult::MessageNextInSequence(1)));
}

#[test]
fn duplicate_of_held_back_sequence_is_refused() {
    let mut re: Resequencer<u8> = Resequencer::new();
    assert!(matches!(re.process(5, 1), ProcessResult::OutOfSequenceMessageInserted));
    assert!(matches!(re.process(5, 2), ProcessResult::DuplicateMessageSequence));
}

#[test]
fn each_message_is_handed_back_once_in_sequence_order() {
    let mut re = Resequencer::new();
    let mut out: Vec<(u8, u32)> = Vec::new();
    // (sequence number, message id): ahead, a repeat of a held back number, the
    // expected ones, and a repeat of one already handed back
    let arrivals: Vec<(u8, u32)> = vec![(2, 10), (2, 11), (0, 12), (1, 13), (1, 14), (3, 15)];
    for (seq, id) in arrivals {
        if let ProcessResult::MessageNextInSequence(m) = re.process(seq, (seq, id)) {
            out.push(m);
        }
        while let DrainResult::Message(m) = re.drain() {
            out.push(m);
        }
    }
    assert_eq!(out, vec![(0, 12), (1, 13), (2, 10), (3, 15)]);
    assert_eq!(re.next_sequence(), 4);
}
