use pico_lockstep::rng::{
    replay_rng_done_for_hart1, source_answer, write_replay, Continue, Delivery, ErrorCode, Forwarding, LockstepRng, Replay, Request, WordBatch,
    RNG_REPLAY_MAX,
};

type Rng = LockstepRng<u8, char, u16>;

fn hart1_with_client() -> Rng {
    let mut rng = Rng::new(1, None, None);
    assert_eq!(rng.set_client('c'), None);
    rng
}

fn buf() -> [u8; RNG_REPLAY_MAX] {
    let mut buf = [0u8; RNG_REPLAY_MAX];
    for (i, b) in buf.iter_mut().enumerate() {
        *b = i as u8;
    }
    buf
}

fn delivered(outcome: Replay<char>) -> Delivery<char> {
    match outcome {
        Replay::Deliver(d) => d,
        other => panic!("not delivered: {:?}", other),
    }
}

#[test]
fn hart0_forwards_requests_to_its_source() {
    let mut rng = Rng::new(0, Some(7), None);
    assert_eq!(rng.get(), Request::Forward(7));
    assert_eq!(rng.cancel(), Request::Forward(7));
    assert!(matches!(rng.replay(64, &buf()), Replay::Discarded));
}

#[test]
fn hart0_without_source_fails() {
    let mut rng = Rng::new(0, None, None);
    assert_eq!(rng.get(), Request::Settled(Err(ErrorCode::FAIL)));
    assert_eq!(rng.cancel(), Request::Settled(Err(ErrorCode::FAIL)));
}

#[test]
fn hart1_accepts_requests() {
    let mut rng = hart1_with_client();
    assert_eq!(rng.get(), Request::Settled(Ok(())));
    assert_eq!(rng.cancel(), Request::Settled(Ok(())));
}

#[test]
fn other_hart_ignores_its_source() {
    let mut rng = Rng::new(3, Some(7), None);
    assert_eq!(rng.get(), Request::Settled(Ok(())));
    assert_eq!(rng.set_client('x'), None);
}

#[test]
fn only_hart0_registers_with_source() {
    assert_eq!(Rng::new(0, Some(7), None).set_client('x'), Some(7));
    assert_eq!(Rng::new(0, None, None).set_client('x'), None);
    assert_eq!(Rng::new(1, Some(7), None).set_client('x'), None);
}

#[test]
fn replay_without_request_is_discarded() {
    let mut rng = hart1_with_client();
    assert!(matches!(rng.replay(8, &buf()), Replay::Discarded));
}

#[test]
fn replay_delivers_little_endian_words() {
    let mut rng = hart1_with_client();
    rng.get();
    let d = delivered(rng.replay(8, &buf()));
    assert_eq!(d.client, 'c');
    assert_eq!(d.error, Ok(()));
    assert_eq!(d.words.as_slice(), &[0x0302_0100, 0x0706_0504]);
}

#[test]
fn replay_drops_incomplete_word() {
    for extra in 0..4u8 {
        let mut rng = hart1_with_client();
        rng.get();
        let d = delivered(rng.replay(4 + extra, &buf()));
        assert_eq!(d.words.as_slice(), &[0x0302_0100]);
    }
    let mut rng = hart1_with_client();
    rng.get();
    assert_eq!(delivered(rng.replay(0, &buf())).words.len(), 0);
}

#[test]
fn replay_length_is_capped_at_buffer() {
    for len in [64u8, 65, 255] {
        let mut rng = hart1_with_client();
        rng.get();
        let d = delivered(rng.replay(len, &buf()));
        assert_eq!(d.words.len(), 16);
        assert_eq!(d.words.as_slice()[15], 0x3f3e_3d3c);
    }
}

#[test]
fn cancel_undoes_request() {
    let mut rng = hart1_with_client();
    rng.get();
    rng.cancel();
    assert!(matches!(rng.replay(8, &buf()), Replay::Discarded));
}

#[test]
fn request_lasts_until_client_is_done() {
    let mut rng = hart1_with_client();
    rng.get();
    for _ in 0..3 {
        delivered(rng.replay(4, &buf()));
        rng.replay_done(Continue::More);
    }
    delivered(rng.replay(4, &buf()));
    rng.replay_done(Continue::Done);
    assert!(matches!(rng.replay(4, &buf()), Replay::Discarded));
}

#[test]
fn request_made_during_callback_ends_with_done() {
    let mut rng = hart1_with_client();
    rng.get();
    delivered(rng.replay(4, &buf()));
    rng.get();
    rng.replay_done(Continue::Done);
    assert!(matches!(rng.replay(4, &buf()), Replay::Discarded));
}

#[test]
fn cancel_during_callback_survives_more() {
    let mut rng = hart1_with_client();
    rng.get();
    delivered(rng.replay(4, &buf()));
    rng.cancel();
    rng.replay_done(Continue::More);
    assert!(matches!(rng.replay(4, &buf()), Replay::Discarded));
}

#[test]
fn replay_without_client_ends_request() {
    let mut rng = Rng::new(1, None, None);
    rng.get();
    assert!(matches!(rng.replay(4, &buf()), Replay::NoClient));
    assert!(matches!(rng.replay(4, &buf()), Replay::Discarded));
}

#[test]
fn interception_takes_at_most_sixteen_words() {
    let mut rng = Rng::new(0, Some(7), Some(99));
    rng.set_client('c');
    let mut source = 100u32..120;
    let out = rng.randomness_available(&mut source, Err(ErrorCode::CANCEL));
    let expected: Vec<u32> = (100..116).collect();
    assert_eq!(out.words.as_slice(), &expected[..]);
    assert_eq!(out.hook, Some(99));
    let d = out.delivery.unwrap();
    assert_eq!(d.client, 'c');
    assert_eq!(d.words.as_slice(), &expected[..]);
    assert_eq!(d.error, Err(ErrorCode::CANCEL));
    assert_eq!(source.next(), Some(116));
}

#[test]
fn interception_through_trait_object() {
    let rng = Rng::new(0, Some(7), None);
    let mut source = vec![1u32, 2, 3].into_iter();
    let mut dynamic: &mut dyn Iterator<Item = u32> = &mut source;
    let out = rng.randomness_available(&mut dynamic, Ok(()));
    assert_eq!(out.words.as_slice(), &[1, 2, 3]);
    assert_eq!(out.hook, None);
    assert!(out.delivery.is_none());
}

#[test]
fn hook_is_spared_an_empty_batch() {
    let mut rng = Rng::new(0, Some(7), Some(99));
    rng.set_client('c');
    let out = rng.randomness_available(&mut std::iter::empty(), Ok(()));
    assert_eq!(out.hook, None);
    let d = out.delivery.unwrap();
    assert_eq!(d.words.len(), 0);
    assert_eq!(d.error, Ok(()));
}

#[test]
fn both_harts_receive_the_same_words() {
    let mut hart0 = Rng::new(0, Some(7), Some(99));
    hart0.set_client('a');
    let words = vec![0x0102_0304u32, 0xffff_ffff, 0, 0x8000_0001, 0xdead_beef];
    let out = hart0.randomness_available(&mut words.clone().into_iter(), Ok(()));
    let mut buf = [0x55u8; RNG_REPLAY_MAX];
    let len = write_replay(out.words.as_slice(), &mut buf);
    assert_eq!(len, 20);
    assert_eq!(&buf[..5], &[4, 3, 2, 1, 0xff]);
    assert_eq!(buf[20], 0x55);
    let mut hart1 = Some(hart1_with_client());
    hart1.as_mut().unwrap().get();
    let d = delivered(replay_rng_done_for_hart1(&mut hart1, len, &buf));
    assert_eq!(d.words.as_slice(), out.delivery.unwrap().words.as_slice());
    assert_eq!(d.words.as_slice(), &words[..]);
}

#[test]
fn full_batch_survives_replay() {
    let mut batch = WordBatch::new();
    for i in 0..16u32 {
        batch.push(i * 0x1111_1111);
    }
    let mut buf = [0u8; RNG_REPLAY_MAX];
    assert_eq!(write_replay(batch.as_slice(), &mut buf), 64);
    let mut rng = hart1_with_client();
    rng.get();
    assert_eq!(delivered(rng.replay(64, &buf)).words.as_slice(), batch.as_slice());
}

#[test]
fn replay_before_hart1_is_set_up_is_dropped() {
    let mut none: Option<Rng> = None;
    assert!(matches!(replay_rng_done_for_hart1(&mut none, 64, &buf()), Replay::Discarded));
    assert!(none.is_none());
}

#[test]
fn hook_is_called_before_client() {
    for cont in [Continue::More, Continue::Done] {
        let mut rng = Rng::new(0, Some(7), Some(99));
        rng.set_client('c');
        let out = rng.randomness_available(&mut vec![7u32, 8, 9].into_iter(), Ok(()));
        let f = out.forward();
        match &f {
            Forwarding::Hook { hook, words, .. } => {
                assert_eq!(*hook, 99);
                assert_eq!(words.as_slice(), &[7, 8, 9]);
            }
            other => panic!("not the hook: {:?}", other),
        }
        let f = f.step(None);
        match &f {
            Forwarding::Client(d) => {
                assert_eq!(d.client, 'c');
                assert_eq!(d.words.as_slice(), &[7, 8, 9]);
                assert_eq!(d.error, Ok(()));
            }
            other => panic!("not the client: {:?}", other),
        }
        match f.step(Some(cont)) {
            Forwarding::Answered(answer) => assert_eq!(answer, cont),
            other => panic!("not answered: {:?}", other),
        }
    }
}

#[test]
fn batch_without_client_is_answered_done() {
    let rng = Rng::new(0, Some(7), Some(99));
    let out = rng.randomness_available(&mut vec![7u32, 8, 9].into_iter(), Ok(()));
    let f = out.forward();
    assert!(matches!(&f, Forwarding::Hook { hook: 99, words, .. } if words.as_slice() == [7, 8, 9]));
    assert!(matches!(f.step(None), Forwarding::Answered(Continue::Done)));

    let rng = Rng::new(0, Some(7), None);
    let out = rng.randomness_available(&mut vec![7u32].into_iter(), Ok(()));
    let f = out.forward();
    assert!(matches!(f, Forwarding::Answered(Continue::Done)));
    assert!(matches!(f.step(Some(Continue::More)), Forwarding::Answered(Continue::Done)));
}

#[test]
fn source_gets_the_clients_answer() {
    assert_eq!(source_answer(Some(Continue::More)), Continue::More);
    assert_eq!(source_answer(Some(Continue::Done)), Continue::Done);
    assert_eq!(source_answer(None), Continue::Done);
}
