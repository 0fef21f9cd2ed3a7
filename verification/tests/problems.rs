use tasksolver::bracket_sequence::is_correct_bracket_sequence;
use tasksolver::chat::handle_client;
use tasksolver::chat::read_frame;
use tasksolver::chat::CurState;
use tasksolver::chat::Frame;
use tasksolver::fibonacci::checked_nth_fibonacci;
use tasksolver::flatten::flatten;
use tasksolver::fibonacci::get_nth_fibonacci;
use tasksolver::kolhoz_hashmap::find_keys_of_data;
use tasksolver::kolhoz_hashmap::get_one_or_default;
use tasksolver::kolhoz_hashmap::insert;
use tasksolver::kolhoz_hashmap::multi_get;
use tasksolver::kolhoz_hashmap::new_hashmap;
use tasksolver::kolhoz_hashmap::resize;
use tasksolver::kolhoz_hashmap::Data;
use tasksolver::kolhoz_hashmap::Key;
use tasksolver::minmax_queue::MinMaxQueue;
use tasksolver::ordinal::checked_where_k_th_ordinal_element_greater;
use tasksolver::ordinal::where_k_th_ordinal_element_greater;
use tasksolver::palindrome::is_palindrome;
use tasksolver::prime_numbers::get_n_prime_numbers;
use tasksolver::roshambo::determine_winner;
use tasksolver::rounds::play_game;
use tasksolver::rounds::TurnGame;
use tasksolver::threadpool::next_turn;
use tasksolver::threadpool::Turn;
use tasksolver::roshambo::handle_game;
use tasksolver::roshambo::GameState;
use tasksolver::saturating::add;
use tasksolver::threadpool::Message;
use tasksolver::trust::Agent;
use tasksolver::trust::AgentMove;
use tasksolver::trust::CheatingAgent;
use tasksolver::trust::CooperatingAgent;
use tasksolver::trust::CopycatAgent;
use tasksolver::trust::DetectiveAgent;
use tasksolver::trust::Game;
use tasksolver::trust::GrudgerAgent;
use tasksolver::trust::RoundOutcome;

#[test]
fn brackets_that_match() {
    assert!(is_correct_bracket_sequence(""));
    assert!(is_correct_bracket_sequence("()"));
    assert!(is_correct_bracket_sequence("([]{})"));
    assert!(is_correct_bracket_sequence("{[()()]}[]"));
}

#[test]
fn brackets_that_do_not_match() {
    assert!(!is_correct_bracket_sequence("("));
    assert!(!is_correct_bracket_sequence(")"));
    assert!(!is_correct_bracket_sequence("(]"));
    assert!(!is_correct_bracket_sequence("([)]"));
    assert!(!is_correct_bracket_sequence("())"));
    assert!(!is_correct_bracket_sequence("abc"));
}

#[test]
fn fibonacci_numbers() {
    assert_eq!(get_nth_fibonacci(0), 0);
    assert_eq!(get_nth_fibonacci(1), 1);
    assert_eq!(get_nth_fibonacci(2), 1);
    assert_eq!(get_nth_fibonacci(10), 55);
    assert_eq!(get_nth_fibonacci(47), 2971215073);
    assert_eq!(checked_nth_fibonacci(47), Some(2971215073));
    assert_eq!(checked_nth_fibonacci(48), None);
    assert_eq!(checked_nth_fibonacci(12), Some(144));
}

#[test]
fn palindromes() {
    assert!(is_palindrome(0));
    assert!(is_palindrome(7));
    assert!(is_palindrome(121));
    assert!(is_palindrome(1234321));
    assert!(!is_palindrome(10));
    assert!(!is_palindrome(123));
    assert!(!is_palindrome(u64::MAX));
    assert!(!is_palindrome(18446744073709551609));
}

#[test]
fn first_primes() {
    assert_eq!(get_n_prime_numbers(0), Vec::<u32>::new());
    assert_eq!(get_n_prime_numbers(1), vec![2]);
    assert_eq!(get_n_prime_numbers(10), vec![2, 3, 5, 7, 11, 13, 17, 19, 23, 29]);
    assert_eq!(get_n_prime_numbers(100).last(), Some(&541));
}

#[test]
fn saturating_addition() {
    assert_eq!(add(1, 2), 3);
    assert_eq!(add(-5, 3), -2);
    assert_eq!(add(i32::MAX, 1), i32::MAX);
    assert_eq!(add(i32::MAX, i32::MAX), i32::MAX);
    assert_eq!(add(i32::MIN, -1), i32::MIN);
    assert_eq!(add(i32::MIN, i32::MAX), -1);
    assert_eq!(add(0, i32::MIN), i32::MIN);
}

#[test]
fn queue_knows_its_extremes() {
    let mut q = MinMaxQueue::new();
    assert!(q.is_empty());
    assert_eq!(q.min(), None);
    assert_eq!(q.max(), None);
    assert_eq!(q.pop(), None);
    for v in [3, 1, 4, 1, 5, 9, 2, 6] {
        q.push(v);
    }
    assert_eq!(q.len(), 8);
    assert_eq!(q.first(), Some(3));
    assert_eq!(q.last(), Some(6));
    assert_eq!(q.min(), Some(1));
    assert_eq!(q.max(), Some(9));
    assert_eq!(q.pop(), Some(3));
    assert_eq!(q.pop(), Some(1));
    assert_eq!(q.min(), Some(1));
    assert_eq!(q.pop(), Some(4));
    assert_eq!(q.pop(), Some(1));
    assert_eq!(q.min(), Some(2));
    assert_eq!(q.max(), Some(9));
    assert_eq!(q.pop(), Some(5));
    assert_eq!(q.pop(), Some(9));
    assert_eq!(q.max(), Some(6));
    assert_eq!(q.min(), Some(2));
    assert_eq!(q.pop(), Some(2));
    assert_eq!(q.pop(), Some(6));
    assert!(q.is_empty());
    assert_eq!(q.min(), None);
    let d = MinMaxQueue::default();
    assert_eq!(d.len(), 0);
}

#[test]
fn cheater_against_cooperator() {
    let mut game = Game::new(Box::new(CheatingAgent::default()), Box::new(CooperatingAgent::default()));
    for _ in 0..3 {
        assert_eq!(game.play_round(), RoundOutcome::LeftCheated);
    }
    assert_eq!(game.left_score(), 9);
    assert_eq!(game.right_score(), -3);
}

#[test]
fn grudger_against_detective() {
    let mut game = Game::new(Box::new(GrudgerAgent::default()), Box::new(DetectiveAgent::default()));
    assert_eq!(game.play_round(), RoundOutcome::BothCooperated);
    assert_eq!(game.play_round(), RoundOutcome::RightCheated);
    assert_eq!(game.play_round(), RoundOutcome::LeftCheated);
    assert_eq!(game.play_round(), RoundOutcome::LeftCheated);
    assert_eq!(game.play_round(), RoundOutcome::BothCheated);
    assert_eq!(game.left_score(), 2 - 1 + 3 + 3);
    assert_eq!(game.right_score(), 2 + 3 - 1 - 1);
}

#[test]
fn copycat_against_detective() {
    let mut game = Game::new(Box::new(CopycatAgent::default()), Box::new(DetectiveAgent::default()));
    assert_eq!(game.play_round(), RoundOutcome::BothCooperated);
    assert_eq!(game.play_round(), RoundOutcome::RightCheated);
    assert_eq!(game.play_round(), RoundOutcome::LeftCheated);
    assert_eq!(game.play_round(), RoundOutcome::BothCooperated);
    assert_eq!(game.play_round(), RoundOutcome::BothCooperated);
    assert_eq!(game.try_play_round(), Some(RoundOutcome::BothCooperated));
}

#[test]
fn detective_exploits_a_cooperator() {
    let mut game = Game::new(Box::new(DetectiveAgent::default()), Box::new(CooperatingAgent::default()));
    assert_eq!(game.play_round(), RoundOutcome::BothCooperated);
    assert_eq!(game.play_round(), RoundOutcome::LeftCheated);
    assert_eq!(game.play_round(), RoundOutcome::BothCooperated);
    assert_eq!(game.play_round(), RoundOutcome::BothCooperated);
    assert_eq!(game.play_round(), RoundOutcome::LeftCheated);
    assert_eq!(game.play_round(), RoundOutcome::LeftCheated);
}

#[test]
fn agents_move_as_they_are_meant_to() {
    let mut grudger = GrudgerAgent::default();
    assert_eq!(grudger.play_round(), AgentMove::Cooperated);
    grudger.set_prev_opponent_move(AgentMove::Cheated);
    assert_eq!(grudger.play_round(), AgentMove::Cheated);
    grudger.set_prev_opponent_move(AgentMove::Cooperated);
    assert_eq!(grudger.play_round(), AgentMove::Cheated);
    let mut copycat = CopycatAgent::default();
    copycat.set_prev_opponent_move(AgentMove::Cheated);
    assert_eq!(copycat.play_round(), AgentMove::Cooperated);
    assert_eq!(copycat.play_round(), AgentMove::Cheated);
    assert_eq!(AgentMove::default(), AgentMove::Cooperated);
}

#[test]
fn table_of_buckets() {
    let mut table = new_hashmap(4);
    assert_eq!(table.len(), 4);
    let k1 = Key { id: 1 };
    let k5 = Key { id: 5 };
    let k2 = Key { id: 2 };
    {
        let stored = insert(&mut table, k1, Data { value: 10 });
        assert_eq!(stored.value, 10);
        stored.value = 11;
    }
    insert(&mut table, k5, Data { value: 50 });
    insert(&mut table, k1, Data { value: 12 });
    insert(&mut table, k2, Data { value: 50 });
    assert_eq!(table[1], vec![(k1, Data { value: 11 }), (k5, Data { value: 50 }), (k1, Data { value: 12 })]);
    let default = Data { value: -1 };
    assert_eq!(get_one_or_default(&table, &k1, &default).value, 11);
    assert_eq!(get_one_or_default(&table, &k5, &default).value, 50);
    assert_eq!(get_one_or_default(&table, &Key { id: 9 }, &default).value, -1);
    let empty: Vec<Vec<(Key, Data)>> = Vec::new();
    assert_eq!(get_one_or_default(&empty, &k1, &default).value, -1);

    let keys = [k1, Key { id: 3 }, k2];
    let got = multi_get(&table, &keys);
    assert_eq!(got.len(), 3);
    assert_eq!(got[0].0, &k1);
    assert_eq!(got[0].1, vec![&Data { value: 11 }, &Data { value: 12 }]);
    assert!(got[1].1.is_empty());
    assert_eq!(got[2].1, vec![&Data { value: 50 }]);
    assert_eq!(multi_get(&empty, &keys)[0].1.len(), 0);

    assert_eq!(find_keys_of_data(&table, &Data { value: 50 }), vec![&k5, &k2]);
    assert!(find_keys_of_data(&table, &Data { value: 0 }).is_empty());

    resize(&mut table, 2);
    assert_eq!(table.len(), 2);
    assert_eq!(table[0], vec![(k2, Data { value: 50 })]);
    assert_eq!(table[1], vec![(k1, Data { value: 12 }), (k5, Data { value: 50 }), (k1, Data { value: 11 })]);
    resize(&mut table, 0);
    assert!(table.is_empty());
    assert_eq!(Key { id: 7 }.get_hash(), 7);
}

#[test]
fn list_with_the_greater_ranked_element() {
    let a = vec![5, 1, 9];
    let b = vec![4, 8, 2];
    assert_eq!(where_k_th_ordinal_element_greater(&a, &b, 0), &b);
    assert_eq!(where_k_th_ordinal_element_greater(&a, &b, 1), &a);
    assert_eq!(where_k_th_ordinal_element_greater(&a, &b, 2), &a);
    let c = vec![1, 5, 9];
    assert!(std::ptr::eq(where_k_th_ordinal_element_greater(&a, &c, 1), &a));
    assert_eq!(checked_where_k_th_ordinal_element_greater(&a, &b, 3), None);
    assert_eq!(checked_where_k_th_ordinal_element_greater(&a, &b, 0), Some(&b));
}

#[test]
fn rock_paper_scissors() {
    assert_eq!(determine_winner(b'R', b'S'), 1);
    assert_eq!(determine_winner(b'P', b'R'), 1);
    assert_eq!(determine_winner(b'S', b'P'), 1);
    assert_eq!(determine_winner(b'S', b'R'), 2);
    assert_eq!(determine_winner(b'R', b'P'), 2);
    assert_eq!(determine_winner(b'P', b'S'), 2);
    assert_eq!(determine_winner(b'R', b'R'), 3);
    assert_eq!(determine_winner(b'x', b'R'), 3);
}

#[test]
fn a_game_of_two_rounds() {
    let (state, replies) = handle_game(GameState::AwaitFirst, Some(b'R'));
    assert_eq!(state, GameState::AwaitSecond { first: b'R' });
    assert!(replies.is_none());
    let (state, replies) = handle_game(state, Some(b'S'));
    assert_eq!(state, GameState::AwaitFirst);
    let replies = replies.unwrap();
    assert_eq!(replies.to_first, (b'S', b'W'));
    assert_eq!(replies.to_second, (b'R', b'L'));
    let (state, _) = handle_game(state, Some(b'P'));
    let (state, replies) = handle_game(state, Some(b'P'));
    let replies = replies.unwrap();
    assert_eq!(replies.to_first, (b'P', b'D'));
    assert_eq!(replies.to_second, (b'P', b'D'));
    let (state, _) = handle_game(state, Some(b'S'));
    let (_, replies) = handle_game(state, Some(b'R'));
    let replies = replies.unwrap();
    assert_eq!(replies.to_first, (b'R', b'L'));
    assert_eq!(replies.to_second, (b'S', b'W'));
    assert_eq!(handle_game(GameState::AwaitFirst, Some(b'x')).0, GameState::Stopped);
    assert_eq!(handle_game(GameState::AwaitFirst, None).0, GameState::Stopped);
    assert_eq!(handle_game(GameState::AwaitSecond { first: b'R' }, Some(0)).0, GameState::Stopped);
    assert_eq!(handle_game(GameState::Stopped, Some(b'R')).0, GameState::Stopped);
}

#[test]
fn frames_of_the_chat() {
    assert!(matches!(read_frame(Vec::new()), Frame::Disconnected));
    assert!(matches!(read_frame(vec![b'a', b'b']), Frame::Truncated));
    match read_frame(vec![b'a', b'b', 1]) {
        Frame::Whole { content } => assert_eq!(content, vec![b'a', b'b']),
        other => panic!("unexpected frame: {:?}", other),
    }
    match read_frame(vec![1]) {
        Frame::Whole { content } => assert!(content.is_empty()),
        other => panic!("unexpected frame: {:?}", other),
    }
}

#[test]
fn a_message_reaches_its_receiver() {
    let me = b"ann".to_vec();
    let (state, delivery) = handle_client(CurState::RecieverNameWaiting, &me, b"bob".to_vec(), true);
    assert!(delivery.is_none());
    assert!(matches!(&state, CurState::MessageWaiting { receiver } if receiver == b"bob"));
    let (state, delivery) = handle_client(state, &me, b"hello".to_vec(), false);
    assert!(matches!(state, CurState::RecieverNameWaiting));
    let delivery = delivery.unwrap();
    assert_eq!(delivery.receiver, b"bob".to_vec());
    assert_eq!(delivery.sender_frame, b"ann\x01".to_vec());
    assert_eq!(delivery.message_frame, b"hello\x01".to_vec());
}

#[test]
fn an_unknown_receiver_and_oneself_are_ignored() {
    let me = b"ann".to_vec();
    let (state, delivery) = handle_client(CurState::RecieverNameWaiting, &me, b"bob".to_vec(), false);
    assert!(delivery.is_none());
    assert!(matches!(state, CurState::RecieverNameWaiting));
    let (state, delivery) = handle_client(CurState::RecieverNameWaiting, &me, b"ann".to_vec(), true);
    assert!(delivery.is_none());
    assert!(matches!(state, CurState::RecieverNameWaiting));
}

#[test]
fn a_message_carries_its_job() {
    assert_eq!(Message::NewJob(5).into_job(), Some(5));
    assert_eq!(Message::<i32>::Terminate.into_job(), None);
}

#[test]
fn the_last_round_names_the_winner() {
    let mut game = TurnGame { second_is_next: false };
    assert_eq!(play_game(&mut game, 0, 0), None);
    assert_eq!(play_game(&mut game, 1, 0), Some(1));
    assert_eq!(play_game(&mut game, 1, 0), Some(2));
    assert_eq!(play_game(&mut game, 2, 0), Some(2));
    assert_eq!(play_game(&mut game, 3, 0), Some(1));
    assert!(game.second_is_next);
    assert_eq!(play_game(&mut game, 1, 2), Some(1));
    assert_eq!(play_game(&mut game, 0, 1), Some(1));
    assert!(!game.second_is_next);
}

#[test]
fn threads_take_turns() {
    assert_eq!(next_turn(false, 0, 5, false), Turn::Take);
    assert_eq!(next_turn(true, 0, 5, false), Turn::Wait);
    assert_eq!(next_turn(true, 1, 5, false), Turn::Take);
    assert_eq!(next_turn(false, 1, 5, false), Turn::Wait);
    assert_eq!(next_turn(false, 5, 5, false), Turn::Stop);
    assert_eq!(next_turn(true, 2, 5, true), Turn::Stop);
    assert_eq!(next_turn(false, 0, 0, false), Turn::Stop);
}

#[test]
fn borrows_are_gathered_in_order() {
    let (mut a, mut b, mut c, mut d) = (1, 2, 3, 4);
    let data: Vec<Box<[&mut i32; 2]>> = vec![Box::new([&mut a, &mut b]), Box::new([&mut c, &mut d])];
    let flat = flatten(data);
    assert_eq!(flat.len(), 4);
    let seen: Vec<i32> = flat.iter().map(|x| **x).collect();
    assert_eq!(seen, vec![1, 2, 3, 4]);
    for x in flat {
        *x *= 10;
    }
    assert_eq!((a, b, c, d), (10, 20, 30, 40));
    let none: Vec<Box<[&mut i32; 3]>> = Vec::new();
    assert!(flatten(none).is_empty());
}
