use tic_tac_toe::account::{is_account, near_token, MAX_ACCOUNT_LEN};
use tic_tac_toe::archive::GameLimitedView;
use tic_tac_toe::config::{
    BASIS_P, GRACE_WINDOW, MAX_FEES, MAX_GAME_DURATION_SEC, MAX_NUM_TURNS, MAX_TIME_TO_BE_AVAILABLE, MIN_DEPOSIT_NEAR,
    MIN_FEES, MIN_GAME_DURATION_SEC, ONE_NEAR,
};
use tic_tac_toe::utils::sec_to_nano;
use tic_tac_toe::{
    AccountId, Config, Contract, ContractError, ErrorKind, Game, GameConfig, GameConfigArgs, GameDeposit, GameId,
    GameResult, GameState, MoveOutcome, Piece, Transfer, TransferOutcome, TransferPurpose,
};

fn account(name: &str) -> AccountId {
    AccountId::new(name).unwrap()
}

fn alice() -> AccountId {
    account("alice.near")
}

fn bob() -> AccountId {
    account("bob.near")
}

fn carol() -> AccountId {
    account("carol.near")
}

fn dave() -> AccountId {
    account("dave.near")
}

fn token() -> AccountId {
    account("token.near")
}

fn no_args() -> GameConfigArgs {
    GameConfigArgs { opponent_id: None, referrer_id: None }
}

fn referred_by(referrer: AccountId) -> GameConfigArgs {
    GameConfigArgs { opponent_id: None, referrer_id: Some(referrer) }
}

/// A service with a ten percent fee, half of it for referrers, games of ten
/// minutes and `stored` games on display; `token()` is accepted from 10 up.
fn service(stored: u8) -> Contract {
    let mut ctr = Contract::new(Some(Config {
        service_fee_percentage: MAX_FEES,
        referrer_ratio: BASIS_P / 2,
        max_game_duration_sec: 600,
        max_stored_games: stored,
    }))
    .unwrap();
    ctr.whitelist_token(token(), 10);
    ctr
}

/// Registers both accounts with `deposit` of `token()` and starts their game;
/// `first` moves first.
fn play(ctr: &mut Contract, first: AccountId, second: AccountId, deposit: u128, now: u64) -> GameId {
    ctr.ft_on_transfer(&token(), &first, deposit, now, no_args()).unwrap();
    ctr.ft_on_transfer(&token(), &second, deposit, now, no_args()).unwrap();
    let id = ctr.start_game(&first, &second, now, 1).unwrap();
    assert_eq!(ctr.internal_get_game(&id).unwrap().current_player_account_id(), first);
    id
}

fn reward_of(ctr: &Contract, who: &AccountId) -> Vec<(AccountId, u128)> {
    ctr.get_stats(who).total_reward
}

#[test]
fn account_names_of_up_to_64_bytes_are_identifiers() {
    assert_eq!(MAX_ACCOUNT_LEN, 64);
    let longest = "a".repeat(64);
    let too_long = "a".repeat(65);
    assert!(AccountId::new(&longest).is_some());
    assert!(AccountId::new(&too_long).is_none());
    assert!(AccountId::new("").is_some());
    assert_eq!(AccountId::new("alice.near").unwrap().to_bytes(), b"alice.near".to_vec());
    assert_eq!(AccountId::new("alice.near").unwrap().len(), 10);
    assert_eq!(AccountId::from_bytes(b"alice.near"), AccountId::new("alice.near"));
}

#[test]
fn accounts_are_the_same_exactly_if_their_names_are() {
    assert!(alice().same(&account("alice.near")));
    assert!(!alice().same(&bob()));
    assert!(!account("alice").same(&account("alice.")));
    assert!(!account("").same(&account("a")));
    assert!(is_account(&Some(alice()), &alice()));
    assert!(!is_account(&Some(alice()), &bob()));
    assert!(!is_account(&None, &alice()));
    assert_eq!(near_token(), account("near"));
}

#[test]
fn standard_settings_are_used_when_none_are_given() {
    let ctr = Contract::new(None).unwrap();
    let params = ctr.get_contract_params();
    assert_eq!(params.service_fee_percentage, MAX_FEES);
    assert_eq!(params.referrer_ratio, 9_500);
    assert_eq!(params.max_game_duration, sec_to_nano(3_600));
    assert_eq!(params.max_turn_duration, sec_to_nano(3_600) / MAX_NUM_TURNS);
    assert_eq!(params.max_stored_games, 50);
    assert_eq!(params.games, 0);
    assert_eq!(params.available_players, 0);
    assert_eq!(ctr.next_game_id, 0);
    assert_eq!(Config::default_values().is_valid(), true);
}

#[test]
fn settings_outside_their_limits_are_refused() {
    let good = Config {
        service_fee_percentage: MIN_FEES,
        referrer_ratio: BASIS_P,
        max_game_duration_sec: MIN_GAME_DURATION_SEC,
        max_stored_games: 0,
    };
    assert!(Contract::new(Some(good)).is_ok());
    let bad = [
        Config { service_fee_percentage: MIN_FEES - 1, ..good },
        Config { service_fee_percentage: MAX_FEES + 1, ..good },
        Config { referrer_ratio: BASIS_P + 1, ..good },
        Config { max_game_duration_sec: MIN_GAME_DURATION_SEC - 1, ..good },
        Config { max_game_duration_sec: MAX_GAME_DURATION_SEC + 1, ..good },
    ];
    for config in bad {
        assert!(!config.is_valid());
        assert_eq!(Contract::new(Some(config)).err(), Some(ContractError::InvalidConfig));
    }
}

#[test]
fn the_longest_wait_is_the_longest_game_and_the_grace_window() {
    assert_eq!(MAX_TIME_TO_BE_AVAILABLE, sec_to_nano(MAX_GAME_DURATION_SEC) + GRACE_WINDOW);
}

#[test]
fn errors_fall_into_four_classes() {
    assert_eq!(ContractError::InvalidConfig.kind(), ErrorKind::Validation);
    assert_eq!(ContractError::TokenNotWhitelisted.kind(), ErrorKind::Validation);
    assert_eq!(ContractError::DepositTooSmall.kind(), ErrorKind::Validation);
    assert_eq!(ContractError::MismatchedDeposits.kind(), ErrorKind::Validation);
    assert_eq!(ContractError::MismatchedTokens.kind(), ErrorKind::Validation);
    assert_eq!(ContractError::InvalidPosition { row: 7, col: 0 }.kind(), ErrorKind::Validation);
    assert_eq!(
        ContractError::TileFilled { other_piece: Piece::X, row: 0, col: 0 }.kind(),
        ErrorKind::Validation
    );
    assert_eq!(ContractError::AlreadyAvailable.kind(), ErrorKind::State);
    assert_eq!(ContractError::NotAvailable.kind(), ErrorKind::State);
    assert_eq!(ContractError::OpponentNotReady.kind(), ErrorKind::State);
    assert_eq!(ContractError::GameNotFound.kind(), ErrorKind::State);
    assert_eq!(ContractError::GameAlreadyOver.kind(), ErrorKind::State);
    assert_eq!(ContractError::TooEarly.kind(), ErrorKind::State);
    assert_eq!(ContractError::SamePlayer.kind(), ErrorKind::Authorization);
    assert_eq!(ContractError::WrongAccount.kind(), ErrorKind::Authorization);
    assert_eq!(ContractError::NoAccess.kind(), ErrorKind::Authorization);
    assert_eq!(ContractError::NotInGame.kind(), ErrorKind::Authorization);
    assert_eq!(ContractError::Overflow.kind(), ErrorKind::Arithmetic);
}

#[test]
fn whitelisting_again_sets_the_new_minimum() {
    let mut ctr = service(5);
    ctr.whitelist_token(account("other.near"), 7);
    ctr.whitelist_token(token(), 25);
    assert_eq!(ctr.get_whitelisted_tokens(), vec![(token(), 25), (account("other.near"), 7)]);
    assert_eq!(ctr.ft_on_transfer(&token(), &alice(), 24, 0, no_args()), Err(ContractError::DepositTooSmall));
    assert_eq!(ctr.ft_on_transfer(&token(), &alice(), 25, 0, no_args()), Ok(()));
}

#[test]
fn registration_is_refused_for_unknown_tokens_and_small_deposits() {
    let mut ctr = service(5);
    assert_eq!(
        ctr.ft_on_transfer(&account("unknown.near"), &alice(), 1_000, 0, no_args()),
        Err(ContractError::TokenNotWhitelisted)
    );
    assert_eq!(ctr.ft_on_transfer(&token(), &alice(), 9, 0, no_args()), Err(ContractError::DepositTooSmall));
    assert_eq!(
        ctr.make_available(&alice(), MIN_DEPOSIT_NEAR - 1, 0, None),
        Err(ContractError::DepositTooSmall)
    );
    assert!(ctr.get_available_players().is_empty());
    assert!(ctr.transfers.is_empty());
    assert_eq!(ctr.make_available(&alice(), MIN_DEPOSIT_NEAR, 0, None), Ok(()));
    assert_eq!(
        ctr.get_available_players(),
        vec![(
            alice(),
            GameConfig {
                token_id: near_token(),
                deposit: MIN_DEPOSIT_NEAR,
                opponent_id: None,
                referrer_id: None,
                created_at: 0
            }
        )]
    );
}

#[test]
fn an_account_registers_once() {
    let mut ctr = service(5);
    ctr.ft_on_transfer(&token(), &alice(), 100, 5, no_args()).unwrap();
    assert_eq!(ctr.ft_on_transfer(&token(), &alice(), 200, 6, no_args()), Err(ContractError::AlreadyAvailable));
    assert_eq!(ctr.make_available(&alice(), ONE_NEAR, 6, None), Err(ContractError::AlreadyAvailable));
    assert_eq!(ctr.internal_get_available_player(&alice()).unwrap().deposit, 100);
    assert_eq!(ctr.internal_get_available_player(&bob()), None);
}

#[test]
fn an_account_that_waited_too_long_may_register_again() {
    let mut ctr = service(5);
    ctr.ft_on_transfer(&token(), &alice(), 100, 5, no_args()).unwrap();
    let bound = ctr.max_game_duration + GRACE_WINDOW;
    // at the bound the account still waits
    assert_eq!(
        ctr.ft_on_transfer(&token(), &alice(), 200, 5 + bound, no_args()),
        Err(ContractError::AlreadyAvailable)
    );
    // past the bound its old deposit goes back and the new one waits
    assert_eq!(ctr.ft_on_transfer(&token(), &alice(), 200, 5 + bound + 1, no_args()), Ok(()));
    assert_eq!(ctr.internal_get_available_player(&alice()).unwrap().deposit, 200);
    assert_eq!(ctr.internal_get_available_player(&alice()).unwrap().created_at, 5 + bound + 1);
    assert_eq!(
        ctr.take_transfers(),
        vec![Transfer { token_id: token(), receiver_id: alice(), amount: 100, purpose: TransferPurpose::Refund }]
    );
}

#[test]
fn leaving_the_queue_pays_the_deposit_back() {
    let mut ctr = service(5);
    assert_eq!(ctr.make_unavailable(&alice()), Err(ContractError::NotAvailable));
    ctr.ft_on_transfer(&token(), &alice(), 100, 0, no_args()).unwrap();
    ctr.ft_on_transfer(&token(), &bob(), 150, 0, no_args()).unwrap();
    ctr.ft_on_transfer(&token(), &carol(), 175, 0, no_args()).unwrap();
    assert_eq!(ctr.make_unavailable(&bob()), Ok(()));
    assert_eq!(ctr.make_unavailable(&bob()), Err(ContractError::NotAvailable));
    let waiting: Vec<AccountId> = ctr.get_available_players().iter().map(|e| e.0).collect();
    assert_eq!(waiting, vec![alice(), carol()]);
    assert_eq!(
        ctr.take_transfers(),
        vec![Transfer { token_id: token(), receiver_id: bob(), amount: 150, purpose: TransferPurpose::Refund }]
    );
    assert!(ctr.take_transfers().is_empty());
}

#[test]
fn the_first_referrer_stays() {
    let mut ctr = service(5);
    ctr.ft_on_transfer(&token(), &alice(), 100, 0, referred_by(carol())).unwrap();
    ctr.make_unavailable(&alice()).unwrap();
    ctr.ft_on_transfer(&token(), &alice(), 100, 0, referred_by(dave())).unwrap();
    assert_eq!(ctr.affiliates, vec![(alice(), carol())]);
}

#[test]
fn start_game_is_refused_for_each_reason_in_turn() {
    let mut ctr = service(5);
    assert_eq!(ctr.start_game(&alice(), &bob(), 0, 0), Err(ContractError::OpponentNotReady));
    ctr.ft_on_transfer(&token(), &bob(), 100, 0, GameConfigArgs { opponent_id: Some(carol()), referrer_id: None })
        .unwrap();
    assert_eq!(ctr.start_game(&bob(), &bob(), 0, 0), Err(ContractError::SamePlayer));
    assert_eq!(ctr.start_game(&alice(), &bob(), 0, 0), Err(ContractError::NotAvailable));
    ctr.ft_on_transfer(&token(), &alice(), 200, 0, no_args()).unwrap();
    assert_eq!(ctr.start_game(&alice(), &bob(), 0, 0), Err(ContractError::WrongAccount));
    ctr.ft_on_transfer(&token(), &carol(), 200, 0, no_args()).unwrap();
    assert_eq!(ctr.start_game(&carol(), &bob(), 0, 0), Err(ContractError::MismatchedDeposits));
    ctr.make_available(&dave(), ONE_NEAR, 0, None).unwrap();
    ctr.whitelist_token(account("big.near"), 0);
    ctr.ft_on_transfer(&account("big.near"), &account("erin.near"), ONE_NEAR, 0, no_args()).unwrap();
    assert_eq!(
        ctr.start_game(&dave(), &account("erin.near"), 0, 0),
        Err(ContractError::MismatchedTokens)
    );
    assert!(ctr.get_active_games().is_empty());
    assert_eq!(ctr.get_available_players().len(), 5);
    assert_eq!(ctr.get_total_stats_num(), 0);
    // the opponent's own wish does not bind the opponent's choice
    assert_eq!(ctr.start_game(&alice(), &carol(), 0, 0), Ok(0));
}

#[test]
fn a_stake_that_cannot_be_doubled_is_refused() {
    let mut ctr = service(5);
    ctr.ft_on_transfer(&token(), &alice(), u128::MAX / 2 + 1, 0, no_args()).unwrap();
    ctr.ft_on_transfer(&token(), &bob(), u128::MAX / 2 + 1, 0, no_args()).unwrap();
    assert_eq!(ctr.start_game(&alice(), &bob(), 0, 0), Err(ContractError::Overflow));
    assert_eq!(ctr.get_available_players().len(), 2);

    let mut ctr = service(5);
    ctr.ft_on_transfer(&token(), &alice(), u128::MAX / 2, 0, no_args()).unwrap();
    ctr.ft_on_transfer(&token(), &bob(), u128::MAX / 2, 0, no_args()).unwrap();
    let id = ctr.start_game(&alice(), &bob(), 0, 0).unwrap();
    assert_eq!(ctr.internal_get_game(&id).unwrap().reward.balance, u128::MAX - 1);
}

#[test]
fn the_last_game_number_is_never_given_out() {
    let mut ctr = service(5);
    ctr.next_game_id = u64::MAX;
    ctr.ft_on_transfer(&token(), &alice(), 100, 0, no_args()).unwrap();
    ctr.ft_on_transfer(&token(), &bob(), 100, 0, no_args()).unwrap();
    assert_eq!(ctr.start_game(&alice(), &bob(), 0, 0), Err(ContractError::Overflow));
}

#[test]
fn the_seed_decides_who_moves_first() {
    for seed in 0..=255u8 {
        let mut ctr = service(5);
        ctr.ft_on_transfer(&token(), &alice(), 100, 7, referred_by(carol())).unwrap();
        ctr.ft_on_transfer(&token(), &bob(), 100, 8, no_args()).unwrap();
        let id = ctr.start_game(&alice(), &bob(), 9, seed).unwrap();
        assert_eq!(id, 0);
        assert_eq!(ctr.next_game_id, 1);
        let game = ctr.internal_get_game(&id).unwrap();
        let (first, second) = if seed % 2 == 0 { (bob(), alice()) } else { (alice(), bob()) };
        assert_eq!(game.get_player_accounts(), (first, second));
        assert_eq!(game.current_player_account_id(), first);
        assert_eq!(game.next_player_account_id(), second);
        assert_eq!(game.players[0].piece, Piece::X);
        assert_eq!(game.players[1].piece, Piece::O);
        assert_eq!(game.get_player_acc_by_piece(Piece::X), first);
        assert_eq!(game.get_player_acc_by_piece(Piece::O), second);
        assert_eq!(game.game_state, GameState::Active);
        assert_eq!(game.reward(), GameDeposit { token_id: token(), balance: 200 });
        assert_eq!(game.initiated_at, 9);
        assert_eq!(game.last_turn_timestamp, 0);
        assert_eq!(game.total_turns, 0);
        assert_eq!(game.current_duration, 0);
        assert!(game.contains_player(&alice()) && game.contains_player(&bob()));
        assert!(!game.contains_player(&carol()));
        assert!(ctr.get_available_players().is_empty());
        assert_eq!(ctr.get_stats(&alice()).games_played, 1);
        assert_eq!(ctr.get_stats(&bob()).games_played, 1);
        assert_eq!(ctr.get_accounts_played(), vec![alice(), bob()]);
        assert_eq!(ctr.affiliates, vec![(alice(), carol())]);
        assert_eq!(ctr.get_game(&id).unwrap().current_player.account_id, first);
    }
}

#[test]
fn a_session_of_an_account_with_itself_cannot_be_opened() {
    assert_eq!(Game::create_game(alice(), alice(), token(), 1, 0).err(), Some(ContractError::SamePlayer));
    assert_eq!(
        Game::create_game(alice(), bob(), token(), u128::MAX / 2 + 1, 0).err(),
        Some(ContractError::Overflow)
    );
    let game = Game::create_game(alice(), bob(), token(), 21, 3).unwrap();
    assert_eq!(game.reward.balance, 42);
    assert_eq!(game.tiles(), [[None; 5]; 5]);
}

#[test]
fn moves_are_refused_for_each_reason_in_turn() {
    let mut ctr = service(5);
    let id = play(&mut ctr, alice(), bob(), 100, 0);
    assert_eq!(ctr.make_move(&alice(), &(id + 1), 0, 0, 0), Err(ContractError::GameNotFound));
    assert_eq!(ctr.make_move(&bob(), &id, 0, 0, 0), Err(ContractError::NoAccess));
    assert_eq!(ctr.make_move(&carol(), &id, 0, 0, 0), Err(ContractError::NoAccess));
    assert_eq!(ctr.make_move(&alice(), &id, 5, 0, 0), Err(ContractError::InvalidPosition { row: 5, col: 0 }));
    assert_eq!(ctr.make_move(&alice(), &id, 0, 5, 0), Err(ContractError::InvalidPosition { row: 0, col: 5 }));
    ctr.make_move(&alice(), &id, 2, 2, 0).unwrap();
    assert_eq!(
        ctr.make_move(&bob(), &id, 2, 2, 0),
        Err(ContractError::TileFilled { other_piece: Piece::X, row: 2, col: 2 })
    );
    let game = ctr.internal_get_game(&id).unwrap();
    assert_eq!(game.total_turns, 1);
    assert_eq!(game.current_player_account_id(), bob());
}

#[test]
fn a_finished_session_accepts_nothing() {
    let mut game = Game::create_game(alice(), bob(), token(), 10, 0).unwrap();
    assert_eq!(game.resign(&carol()), Err(ContractError::NotInGame));
    assert_eq!(game.resign(&alice()), Ok(bob()));
    assert_eq!(game.game_state, GameState::Finished);
    let frozen = game;
    assert_eq!(game.apply_move(&alice(), 0, 0, 0, 10, 100), Err(ContractError::GameAlreadyOver));
    assert_eq!(game.resign(&bob()), Err(ContractError::GameAlreadyOver));
    assert_eq!(game.force_stop(&bob(), 1_000, 10, 100), Err(ContractError::GameAlreadyOver));
    assert_eq!(game, frozen);
}

#[test]
fn a_move_in_time_lets_the_game_go_on() {
    let mut ctr = service(5);
    let turn = ctr.max_turn_duration;
    let id = play(&mut ctr, alice(), bob(), 100, 1_000);
    let tiles = ctr.make_move(&alice(), &id, 0, 0, 1_000 + turn).unwrap();
    assert_eq!(tiles[0][0], Some(Piece::X));
    let game = ctr.internal_get_game(&id).unwrap();
    assert_eq!(game.game_state, GameState::Active);
    assert_eq!(game.total_turns, 1);
    assert_eq!(game.last_turn_timestamp, 1_000 + turn);
    assert_eq!(game.current_duration, turn);
    assert_eq!(game.current_piece, Piece::O);
    assert_eq!(game.board.current_piece, Piece::O);
    ctr.make_move(&bob(), &id, 0, 1, 1_000 + 2 * turn).unwrap();
    let game = ctr.internal_get_game(&id).unwrap();
    assert_eq!(game.total_turns, 2);
    assert_eq!(game.current_duration, 2 * turn);
    assert!(ctr.transfers.is_empty());
}

#[test]
fn a_late_first_move_forfeits_the_game() {
    let mut ctr = service(5);
    let turn = ctr.max_turn_duration;
    let id = play(&mut ctr, alice(), bob(), 100, 1_000);
    let tiles = ctr.make_move(&alice(), &id, 0, 0, 1_000 + turn + 1).unwrap();
    assert_eq!(tiles[0][0], Some(Piece::X));
    assert_eq!(ctr.internal_get_game(&id), None);
    assert_eq!(ctr.get_stats(&alice()).penalties_num, 1);
    assert_eq!(ctr.get_stats(&alice()).victories_num, 0);
    assert_eq!(ctr.get_stats(&bob()).victories_num, 1);
    assert_eq!(ctr.get_stats(&bob()).penalties_num, 0);
    assert_eq!(reward_of(&ctr, &bob()), vec![(token(), 180)]);
    assert_eq!(reward_of(&ctr, &alice()), vec![]);
    assert_eq!(ctr.get_user_penalties(&alice()).penalties_num, 1);
    assert_eq!(ctr.get_penalty_users().len(), 1);
    assert_eq!(ctr.get_penalty_users()[0].0, alice());
}

#[test]
fn a_move_after_the_turn_limit_forfeits_the_game() {
    let mut ctr = service(5);
    let turn = ctr.max_turn_duration;
    let id = play(&mut ctr, alice(), bob(), 100, 0);
    ctr.make_move(&alice(), &id, 0, 0, 10).unwrap();
    ctr.make_move(&bob(), &id, 1, 0, 20).unwrap();
    // submitted one tick after the previous turn's time plus the limit
    let tiles = ctr.make_move(&alice(), &id, 0, 1, 20 + turn + 1).unwrap();
    assert_eq!(tiles[0][1], Some(Piece::X));
    assert!(ctr.get_active_games().is_empty());
    assert_eq!(ctr.make_move(&bob(), &id, 1, 1, 20 + turn + 2), Err(ContractError::GameNotFound));
    assert_eq!(ctr.get_stats(&alice()).penalties_num, 1);
    assert_eq!(ctr.get_stats(&bob()).victories_num, 1);
    let kept = ctr.get_last_games();
    assert_eq!(kept.len(), 1);
    assert_eq!(kept[0].0, id);
    assert_eq!(kept[0].1.game_result, GameResult::Win(bob()));
    assert_eq!(kept[0].1.board[0][1], Some(Piece::X));
    assert_eq!(
        ctr.take_transfers(),
        vec![Transfer { token_id: token(), receiver_id: bob(), amount: 180, purpose: TransferPurpose::Reward }]
    );
}

#[test]
fn a_move_after_the_game_limit_forfeits_the_game() {
    let mut game = Game::create_game(alice(), bob(), token(), 10, 0).unwrap();
    assert_eq!(game.apply_move(&alice(), 0, 0, 90, 100, 150), Ok(MoveOutcome::Continues));
    assert_eq!(game.apply_move(&bob(), 1, 0, 150, 100, 150), Ok(MoveOutcome::Continues));
    assert!(!game.is_timed_out(150, 100, 150));
    assert!(game.is_timed_out(151, 100, 150));
    assert_eq!(game.apply_move(&alice(), 0, 1, 151, 100, 150), Ok(MoveOutcome::TimedOut));
    assert_eq!(game.game_state, GameState::Finished);
    assert_eq!(game.current_duration, 151);
    assert_eq!(game.total_turns, 3);
}

#[test]
fn a_late_move_that_completes_a_line_still_wins() {
    let mut game = Game::create_game(alice(), bob(), token(), 10, 0).unwrap();
    for col in 0..4 {
        assert_eq!(game.apply_move(&alice(), 0, col, 1, 100, 1_000), Ok(MoveOutcome::Continues));
        assert_eq!(game.apply_move(&bob(), 1, col, 1, 100, 1_000), Ok(MoveOutcome::Continues));
    }
    assert_eq!(
        game.apply_move(&alice(), 0, 4, 5_000, 100, 1_000),
        Ok(MoveOutcome::Finished(GameResult::Win(alice())))
    );
    assert_eq!(game.game_state, GameState::Finished);
    assert_eq!(game.total_turns, 8);
    assert_eq!(game.last_turn_timestamp, 1);
}

#[test]
fn time_that_runs_backwards_counts_as_no_time() {
    let mut game = Game::create_game(alice(), bob(), token(), 10, 1_000).unwrap();
    assert!(!game.is_timed_out(0, 0, 0));
    assert!(!game.is_stoppable(0, 10, 10));
    assert!(game.is_stoppable(0, 10, 0));
    assert_eq!(game.apply_move(&alice(), 0, 0, 5, 10, 10), Ok(MoveOutcome::Continues));
    assert_eq!(game.current_duration, 0);
}

#[test]
fn winning_on_the_board_settles_the_game() {
    let mut ctr = service(5);
    ctr.ft_on_transfer(&token(), &alice(), 100, 0, referred_by(carol())).unwrap();
    ctr.ft_on_transfer(&token(), &bob(), 100, 0, referred_by(dave())).unwrap();
    let id = ctr.start_game(&alice(), &bob(), 0, 1).unwrap();
    for col in 0..4 {
        ctr.make_move(&alice(), &id, 0, col, 0).unwrap();
        ctr.make_move(&bob(), &id, 1, col, 0).unwrap();
    }
    let tiles = ctr.make_move(&alice(), &id, 0, 4, 0).unwrap();
    assert_eq!(tiles[0], [Some(Piece::X); 5]);
    assert!(ctr.get_active_games().is_empty());
    // stake 200, fee 20, half of the fee for referrers: 5 each
    assert_eq!(
        ctr.take_transfers(),
        vec![
            Transfer { token_id: token(), receiver_id: alice(), amount: 180, purpose: TransferPurpose::Reward },
            Transfer { token_id: token(), receiver_id: carol(), amount: 5, purpose: TransferPurpose::ReferralFee },
            Transfer { token_id: token(), receiver_id: dave(), amount: 5, purpose: TransferPurpose::ReferralFee },
        ]
    );
    assert_eq!(reward_of(&ctr, &alice()), vec![(token(), 180)]);
    assert_eq!(ctr.get_stats(&alice()).victories_num, 1);
    assert_eq!(ctr.get_stats(&bob()).victories_num, 0);
    assert_eq!(ctr.get_stats(&bob()).penalties_num, 0);
    assert_eq!(ctr.get_stats(&carol()).total_affiliate_reward, vec![(token(), 5)]);
    assert_eq!(ctr.get_stats(&dave()).total_affiliate_reward, vec![(token(), 5)]);
    assert_eq!(ctr.get_stats(&carol()).games_played, 0);
    assert_eq!(ctr.get_accounts_played(), vec![alice(), bob()]);
    assert_eq!(ctr.get_total_stats_num(), 4);
    assert_eq!(
        ctr.get_last_games(),
        vec![(
            id,
            GameLimitedView {
                game_result: GameResult::Win(alice()),
                player1: alice(),
                player2: bob(),
                reward_or_tie_refund: GameDeposit { token_id: token(), balance: 180 },
                board: tiles,
            }
        )]
    );
}

#[test]
fn resignation_pays_the_opponent() {
    // one unit each, ten percent fee: the winner's reward grows by 1.8 units
    let unit = 10u128.pow(6);
    let mut ctr = service(5);
    let id = play(&mut ctr, alice(), bob(), unit, 0);
    assert_eq!(ctr.give_up(&carol(), &id), Err(ContractError::NotInGame));
    assert_eq!(ctr.give_up(&alice(), &(id + 1)), Err(ContractError::GameNotFound));
    assert_eq!(ctr.give_up(&bob(), &id), Ok(()));
    assert_eq!(ctr.give_up(&bob(), &id), Err(ContractError::GameNotFound));
    assert_eq!(reward_of(&ctr, &alice()), vec![(token(), 1_800_000)]);
    assert_eq!(reward_of(&ctr, &bob()), vec![]);
    assert_eq!(ctr.get_stats(&alice()).games_played, 1);
    assert_eq!(ctr.get_stats(&bob()).games_played, 1);
    assert_eq!(ctr.get_stats(&alice()).victories_num, 1);
    assert_eq!(ctr.get_stats(&bob()).penalties_num, 0);
    assert_eq!(
        ctr.take_transfers(),
        vec![Transfer { token_id: token(), receiver_id: alice(), amount: 1_800_000, purpose: TransferPurpose::Reward }]
    );
}

#[test]
fn rewards_add_up_over_games() {
    let mut ctr = service(5);
    let a = play(&mut ctr, alice(), bob(), 100, 0);
    ctr.give_up(&bob(), &a).unwrap();
    let b = play(&mut ctr, alice(), bob(), 50, 0);
    ctr.give_up(&bob(), &b).unwrap();
    ctr.whitelist_token(account("other.near"), 1);
    ctr.ft_on_transfer(&account("other.near"), &alice(), 10, 0, no_args()).unwrap();
    ctr.ft_on_transfer(&account("other.near"), &bob(), 10, 0, no_args()).unwrap();
    let c = ctr.start_game(&alice(), &bob(), 0, 0).unwrap();
    ctr.give_up(&bob(), &c).unwrap();
    assert_eq!(reward_of(&ctr, &alice()), vec![(token(), 270), (account("other.near"), 18)]);
    assert_eq!(ctr.get_stats(&alice()).victories_num, 3);
    assert_eq!(ctr.get_stats(&alice()).games_played, 3);
    assert_eq!(ctr.get_stats(&bob()).games_played, 3);
}

#[test]
fn stopping_a_game_is_refused_for_each_reason_in_turn() {
    let mut ctr = service(5);
    let turn = ctr.max_turn_duration;
    let whole = ctr.max_game_duration;
    let id = play(&mut ctr, alice(), bob(), 100, 0);
    assert_eq!(ctr.stop_game(&bob(), &(id + 1), whole), Err(ContractError::GameNotFound));
    assert_eq!(ctr.stop_game(&alice(), &id, whole), Err(ContractError::NoAccess));
    assert_eq!(ctr.stop_game(&bob(), &id, turn), Err(ContractError::TooEarly));
    assert_eq!(ctr.stop_game(&carol(), &id, turn), Err(ContractError::TooEarly));
    assert_eq!(ctr.stop_game(&carol(), &id, turn + 1), Err(ContractError::NotInGame));
    assert_eq!(ctr.get_active_games().len(), 1);
    assert_eq!(ctr.get_total_stats_num(), 2);
    assert!(ctr.transfers.is_empty());
}

#[test]
fn the_waiting_player_may_stop_a_game_that_ran_out_of_time() {
    let mut ctr = service(5);
    let turn = ctr.max_turn_duration;
    let id = play(&mut ctr, alice(), bob(), 100, 0);
    ctr.make_move(&alice(), &id, 0, 0, 5).unwrap();
    assert_eq!(ctr.stop_game(&alice(), &id, 5 + turn), Err(ContractError::TooEarly));
    assert_eq!(ctr.stop_game(&alice(), &id, 5 + turn + 1), Ok(()));
    assert_eq!(ctr.get_stats(&alice()).victories_num, 1);
    assert_eq!(ctr.get_stats(&bob()).penalties_num, 1);
    assert_eq!(reward_of(&ctr, &alice()), vec![(token(), 180)]);
    let kept = ctr.get_last_games();
    assert_eq!((kept[0].1.player1, kept[0].1.player2), (alice(), bob()));
    assert_eq!(kept[0].1.game_result, GameResult::Win(alice()));

    // once the whole game's time is up a stop is in order at the limit itself
    let mut ctr = service(5);
    let whole = ctr.max_game_duration;
    let id = play(&mut ctr, alice(), bob(), 100, 0);
    let mut game = ctr.internal_get_game(&id).unwrap();
    game.total_turns = 3;
    game.last_turn_timestamp = whole - 1;
    ctr.games[0].1 = game;
    assert_eq!(ctr.stop_game(&bob(), &id, whole - 1), Err(ContractError::TooEarly));
    assert_eq!(ctr.stop_game(&bob(), &id, whole), Ok(()));
    let kept = ctr.get_last_games();
    assert_eq!((kept[0].1.player1, kept[0].1.player2), (bob(), alice()));
}

#[test]
fn the_sweep_ends_games_that_ran_out_of_time() {
    let mut ctr = service(5);
    let turn = ctr.max_turn_duration;
    let slow = play(&mut ctr, alice(), bob(), 100, 0);
    let quick = play(&mut ctr, carol(), dave(), 100, turn);
    ctr.sweep(turn);
    assert_eq!(ctr.get_active_games().len(), 2);
    assert_eq!(ctr.last_update_timestamp, turn);
    ctr.sweep(turn + 1);
    let left: Vec<GameId> = ctr.get_active_games().iter().map(|g| g.0).collect();
    assert_eq!(left, vec![quick]);
    assert_eq!(ctr.internal_get_game(&slow), None);
    // the player whose turn it was is penalized, the other wins
    assert_eq!(ctr.get_stats(&alice()).penalties_num, 1);
    assert_eq!(ctr.get_stats(&bob()).victories_num, 1);
    assert_eq!(reward_of(&ctr, &bob()), vec![(token(), 180)]);
    assert_eq!(ctr.get_last_games()[0].1.game_result, GameResult::Win(bob()));
}

#[test]
fn a_move_sweeps_the_other_games() {
    let mut ctr = service(5);
    let turn = ctr.max_turn_duration;
    let slow = play(&mut ctr, alice(), bob(), 100, 0);
    let quick = play(&mut ctr, carol(), dave(), 100, turn);
    assert_eq!(ctr.make_move(&dave(), &quick, 0, 0, turn + 1), Err(ContractError::NoAccess));
    assert_eq!(ctr.get_active_games().len(), 2);
    ctr.make_move(&carol(), &quick, 0, 0, turn + 1).unwrap();
    assert_eq!(ctr.internal_get_game(&slow), None);
    assert_eq!(ctr.internal_get_game(&quick).unwrap().total_turns, 1);
}

#[test]
fn the_sweep_pays_back_those_who_waited_too_long() {
    let mut ctr = service(5);
    let bound = ctr.max_game_duration + GRACE_WINDOW;
    ctr.ft_on_transfer(&token(), &alice(), 100, 10, no_args()).unwrap();
    ctr.ft_on_transfer(&token(), &bob(), 200, 11, no_args()).unwrap();
    ctr.ft_on_transfer(&token(), &carol(), 300, 12, no_args()).unwrap();
    ctr.sweep(10 + bound);
    assert_eq!(ctr.get_available_players().len(), 3);
    ctr.sweep(11 + bound + 1);
    let waiting: Vec<AccountId> = ctr.get_available_players().iter().map(|e| e.0).collect();
    assert_eq!(waiting, vec![carol()]);
    assert_eq!(
        ctr.take_transfers(),
        vec![
            Transfer { token_id: token(), receiver_id: alice(), amount: 100, purpose: TransferPurpose::Refund },
            Transfer { token_id: token(), receiver_id: bob(), amount: 200, purpose: TransferPurpose::Refund },
        ]
    );
}

fn busy_service() -> Contract {
    let mut ctr = service(2);
    let turn = ctr.max_turn_duration;
    ctr.ft_on_transfer(&token(), &account("w1.near"), 100, 0, no_args()).unwrap();
    play(&mut ctr, alice(), bob(), 100, 0);
    play(&mut ctr, carol(), dave(), 100, 5);
    let late = play(&mut ctr, account("e.near"), account("f.near"), 100, turn);
    ctr.make_move(&account("e.near"), &late, 0, 0, turn + 1).ok();
    ctr.ft_on_transfer(&token(), &account("w2.near"), 100, ctr.max_game_duration, no_args()).unwrap();
    ctr
}

#[test]
fn a_second_sweep_at_the_same_time_changes_nothing() {
    let base = busy_service();
    let times = [
        0,
        base.max_turn_duration,
        base.max_turn_duration + 6,
        base.max_game_duration,
        base.max_game_duration + GRACE_WINDOW + 1,
        u64::MAX,
    ];
    for now in times {
        let mut once = busy_service();
        once.sweep(now);
        let mut twice = busy_service();
        twice.sweep(now);
        twice.sweep(now);
        assert_eq!(once, twice);
    }
}

#[test]
fn the_archive_keeps_the_newest_games() {
    let max = 3u8;
    let mut ctr = service(max);
    let mut ids = Vec::new();
    for _ in 0..(max as usize + 1) {
        let id = play(&mut ctr, alice(), bob(), 100, 0);
        ctr.give_up(&alice(), &id).unwrap();
        ids.push(id);
        assert!(ctr.get_last_games().len() <= max as usize);
    }
    let kept: Vec<GameId> = ctr.get_last_games().iter().map(|g| g.0).collect();
    assert_eq!(kept.len(), max as usize);
    assert_eq!(kept, ids[1..].to_vec());
    assert!(!kept.contains(&ids[0]));
}

#[test]
fn an_archive_of_no_room_keeps_nothing() {
    let mut ctr = service(0);
    let id = play(&mut ctr, alice(), bob(), 100, 0);
    ctr.give_up(&alice(), &id).unwrap();
    assert!(ctr.get_last_games().is_empty());
    assert_eq!(ctr.get_stats(&bob()).victories_num, 1);
}

#[test]
fn a_failed_payment_is_requested_again() {
    let mut ctr = service(5);
    let id = play(&mut ctr, alice(), bob(), 100, 0);
    ctr.give_up(&bob(), &id).unwrap();
    let requests = ctr.take_transfers();
    assert_eq!(requests.len(), 1);
    ctr.resolve_transfer(requests[0], TransferOutcome::Success);
    assert!(ctr.transfers.is_empty());
    ctr.resolve_transfer(requests[0], TransferOutcome::Failure);
    assert_eq!(ctr.take_transfers(), requests);
    // the books are as they were
    assert_eq!(reward_of(&ctr, &alice()), vec![(token(), 180)]);
}

#[test]
fn what_is_paid_and_what_is_kept_is_the_stake() {
    for (deposit, kept) in [(10u128, 2u128), (15, 3), (100, 10), (105, 11), (12_345, 1_235)] {
        // alice and bob are referred, half of the fee is for referrers
        let mut ctr = service(5);
        ctr.ft_on_transfer(&token(), &alice(), deposit, 0, referred_by(carol())).unwrap();
        ctr.ft_on_transfer(&token(), &bob(), deposit, 0, referred_by(carol())).unwrap();
        let id = ctr.start_game(&alice(), &bob(), 0, 0).unwrap();
        ctr.give_up(&alice(), &id).unwrap();
        let paid: u128 = ctr.take_transfers().iter().map(|t| t.amount).sum();
        let stake = 2 * deposit;
        let fee = stake / 10;
        let share = fee / 2 / 2;
        assert_eq!(paid, stake - fee + 2 * share);
        assert_eq!(fee - 2 * share, kept);
        assert_eq!(paid + kept, stake);
    }
}

#[test]
fn a_filled_cell_stays_as_it_is_for_the_rest_of_the_game() {
    let mut ctr = service(5);
    let id = play(&mut ctr, alice(), bob(), 100, 0);
    let other = play(&mut ctr, carol(), dave(), 100, 0);
    let moves = [(2, 2), (0, 0), (1, 1), (4, 4), (3, 3), (0, 4), (4, 0), (1, 3), (3, 1)];
    let mut seen: Vec<(usize, usize, Piece)> = Vec::new();
    for (turn, (row, col)) in moves.iter().enumerate() {
        let (who, piece) = if turn % 2 == 0 { (alice(), Piece::X) } else { (bob(), Piece::O) };
        let tiles = ctr.make_move(&who, &id, *row, *col, turn as u64).unwrap();
        seen.push((*row, *col, piece));
        // requests that are refused, and requests about other games, change no cell
        assert!(ctr.make_move(&who, &id, *row, *col, turn as u64).is_err());
        ctr.make_move(&carol(), &other, 0, turn % 5, turn as u64).ok();
        ctr.make_move(&dave(), &other, 1, turn % 5, turn as u64).ok();
        ctr.sweep(turn as u64);
        let held = ctr.internal_get_game(&id).unwrap().tiles();
        assert_eq!(held, tiles);
        for (r, c, p) in &seen {
            assert_eq!(held[*r][*c], Some(*p));
        }
        let filled = held.iter().flatten().filter(|cell| cell.is_some()).count();
        assert_eq!(filled, seen.len());
    }
}

#[test]
fn a_service_that_was_used_is_well_formed() {
    let ctr = busy_service();
    assert!(ctr.is_well_formed());
    assert!(ctr.stats.is_well_formed());
    for (_, game) in &ctr.games {
        assert!(game.is_well_formed());
    }
    assert!(Contract::new(None).unwrap().is_well_formed());
}

#[test]
fn a_damaged_service_is_not_well_formed() {
    let mut ctr = busy_service();
    ctr.max_turn_duration += 1;
    assert!(!ctr.is_well_formed());

    let mut ctr = busy_service();
    ctr.service_fee_percentage = BASIS_P + 1;
    assert!(!ctr.is_well_formed());

    let mut ctr = busy_service();
    ctr.referrer_ratio = BASIS_P + 1;
    assert!(!ctr.is_well_formed());

    let mut ctr = busy_service();
    ctr.max_game_duration = sec_to_nano(MAX_GAME_DURATION_SEC) + MAX_NUM_TURNS;
    ctr.max_turn_duration = ctr.max_game_duration / MAX_NUM_TURNS;
    assert!(!ctr.is_well_formed());

    let mut ctr = busy_service();
    let doubled = ctr.available_players[0];
    ctr.available_players.push(doubled);
    assert!(!ctr.is_well_formed());

    let mut ctr = busy_service();
    ctr.whitelisted_tokens.push((token(), 1));
    assert!(!ctr.is_well_formed());

    let mut ctr = busy_service();
    ctr.affiliates.push((alice(), bob()));
    ctr.affiliates.push((alice(), carol()));
    assert!(!ctr.is_well_formed());

    let mut ctr = busy_service();
    let doubled = ctr.games[0];
    ctr.games.push(doubled);
    assert!(!ctr.is_well_formed());

    let mut ctr = busy_service();
    ctr.next_game_id = ctr.games[0].0;
    assert!(!ctr.is_well_formed());

    let mut ctr = busy_service();
    ctr.games[0].1.game_state = GameState::Finished;
    assert!(!ctr.is_well_formed());

    let mut ctr = busy_service();
    ctr.games[0].1.players[1] = ctr.games[0].1.players[0];
    assert!(!ctr.is_well_formed());

    let mut ctr = service(0);
    let id = play(&mut ctr, alice(), bob(), 100, 0);
    ctr.max_stored_games = 1;
    ctr.give_up(&alice(), &id).unwrap();
    assert!(ctr.is_well_formed());
    ctr.max_stored_games = 0;
    assert!(!ctr.is_well_formed());

    let mut ctr = busy_service();
    let id = ctr.games[0].0;
    let loser = ctr.games[0].1.players[0].account_id;
    ctr.give_up(&loser, &id).unwrap();
    assert!(ctr.is_well_formed());
    let winner = ctr.stats.records.iter().position(|r| !r.1.total_reward.is_empty()).unwrap();
    let doubled = ctr.stats.records[winner].1.total_reward[0];
    ctr.stats.records[winner].1.total_reward.push(doubled);
    assert!(!ctr.stats.is_well_formed());
    assert!(!ctr.is_well_formed());
}

#[test]
fn a_session_is_well_formed_while_it_is_played() {
    let mut game = Game::create_game(alice(), bob(), token(), 10, 0).unwrap();
    assert!(game.is_well_formed());
    game.apply_move(&alice(), 0, 0, 1, 100, 1_000).unwrap();
    assert!(game.is_well_formed());
    let mut bad = game;
    bad.current_player_index = 2;
    assert!(!bad.is_well_formed());
    let mut bad = game;
    bad.current_piece = bad.current_piece.other();
    assert!(!bad.is_well_formed());
    let mut bad = game;
    bad.players[1].piece = bad.players[0].piece;
    assert!(!bad.is_well_formed());
    let mut bad = game;
    bad.board.winner = Some(tic_tac_toe::Winner::Tie);
    assert!(!bad.is_well_formed());
    bad.game_state = GameState::Finished;
    assert!(bad.is_well_formed());
}

#[test]
fn a_referrer_whose_share_is_nothing_gets_nothing() {
    // stake 20, fee 2, half of it for referrers: 1, which cannot be halved
    let mut ctr = service(5);
    ctr.ft_on_transfer(&token(), &alice(), 10, 0, referred_by(carol())).unwrap();
    ctr.ft_on_transfer(&token(), &bob(), 10, 0, referred_by(dave())).unwrap();
    let id = ctr.start_game(&alice(), &bob(), 0, 1).unwrap();
    ctr.give_up(&bob(), &id).unwrap();
    assert_eq!(
        ctr.take_transfers(),
        vec![Transfer { token_id: token(), receiver_id: alice(), amount: 18, purpose: TransferPurpose::Reward }]
    );
    assert_eq!(ctr.get_total_stats_num(), 2);
    assert!(ctr.get_stats(&carol()).total_affiliate_reward.is_empty());
}

#[test]
fn a_tie_pays_both_players_the_same() {
    let mut ctr = service(5);
    ctr.ft_on_transfer(&token(), &alice(), 1_000, 0, referred_by(carol())).unwrap();
    ctr.ft_on_transfer(&token(), &bob(), 1_000, 0, no_args()).unwrap();
    let id = ctr.start_game(&alice(), &bob(), 0, 1).unwrap();
    let rows = ["xoxox", "oxoxo", "xoxox", "oxoxo", "oxxxo"];
    let mut mine: Vec<(usize, usize)> = Vec::new();
    let mut theirs: Vec<(usize, usize)> = Vec::new();
    for (r, row) in rows.iter().enumerate() {
        for (c, mark) in row.chars().enumerate() {
            if mark == 'x' {
                mine.push((r, c));
            } else {
                theirs.push((r, c));
            }
        }
    }
    for turn in 0..25 {
        let (who, (row, col)) = if turn % 2 == 0 { (alice(), mine[turn / 2]) } else { (bob(), theirs[turn / 2]) };
        ctr.make_move(&who, &id, row, col, 0).unwrap();
    }
    assert!(ctr.get_active_games().is_empty());
    // stake 2000, fee 200, each player (2000 - 200) / 2; alice's referrer a quarter of the fee
    assert_eq!(reward_of(&ctr, &alice()), vec![(token(), 900)]);
    assert_eq!(reward_of(&ctr, &bob()), vec![(token(), 900)]);
    assert_eq!(ctr.get_stats(&alice()).victories_num, 0);
    assert_eq!(ctr.get_stats(&bob()).victories_num, 0);
    assert_eq!(ctr.get_stats(&carol()).total_affiliate_reward, vec![(token(), 50)]);
    assert_eq!(ctr.get_last_games()[0].1.game_result, GameResult::Tie);
    assert_eq!(
        ctr.get_last_games()[0].1.reward_or_tie_refund,
        GameDeposit { token_id: token(), balance: 900 }
    );
    assert_eq!(
        ctr.take_transfers(),
        vec![
            Transfer { token_id: token(), receiver_id: alice(), amount: 900, purpose: TransferPurpose::TieRefund },
            Transfer { token_id: token(), receiver_id: bob(), amount: 900, purpose: TransferPurpose::TieRefund },
            Transfer { token_id: token(), receiver_id: carol(), amount: 50, purpose: TransferPurpose::ReferralFee },
        ]
    );
}
