use gov_relay::tournament::{
    all_set, handle_deliver_participant_tokens_singlechain, position_of, DeliverParticipantTokensSinglechain,
    FinishMetadata, OperatorInfo, Role, Team, Tournament, TournamentError, TournamentStatus, BP_DEC,
};

fn key(tag: u8) -> [u8; 32] {
    [tag; 32]
}

fn accounts() -> DeliverParticipantTokensSinglechain {
    DeliverParticipantTokensSinglechain {
        operator_info: OperatorInfo { approved: true, role: Role::Backend },
        tournament: Tournament {
            id: 1,
            status: TournamentStatus::PreFinish,
            players_in_team: 2,
            finish_metadata: FinishMetadata {
                winners: vec![key(10), key(20)],
                rewarded_winners: vec![false, false],
                rewards_prize_fractions: vec![7000, 3000],
                total_prize_pool: 1_000_001,
                remaining_prize_pool: 1_000_001,
            },
        },
        team: Team {
            key: key(99),
            captain: key(20),
            players: vec![key(20), key(21)],
            players_money_delivered: vec![false, false],
        },
        participant: key(21),
    }
}

#[test]
fn basis_points_scale() {
    assert_eq!(BP_DEC, 10_000);
}

#[test]
fn participant_gets_an_even_share_of_the_team_prize() {
    let mut a = accounts();
    assert!(a.is_payable());
    assert_eq!(handle_deliver_participant_tokens_singlechain(&mut a), Ok(150_000));
    assert_eq!(a.team.players_money_delivered, vec![false, true]);
    assert_eq!(a.tournament.finish_metadata.remaining_prize_pool, 850_001);
    assert_eq!(a.tournament.finish_metadata.rewarded_winners, vec![false, false]);
}

#[test]
fn winner_is_marked_when_the_last_player_is_paid() {
    let mut a = accounts();
    assert_eq!(handle_deliver_participant_tokens_singlechain(&mut a), Ok(150_000));
    a.participant = key(20);
    assert_eq!(handle_deliver_participant_tokens_singlechain(&mut a), Ok(150_000));
    assert_eq!(a.team.players_money_delivered, vec![true, true]);
    assert_eq!(a.tournament.finish_metadata.rewarded_winners, vec![false, true]);
    assert_eq!(a.tournament.finish_metadata.remaining_prize_pool, 700_001);
    let before = a.clone();
    assert_eq!(handle_deliver_participant_tokens_singlechain(&mut a), Err(TournamentError::AlreadyPaid));
    assert_eq!(a, before);
}

#[test]
fn participant_is_paid_once() {
    let mut a = accounts();
    assert_eq!(handle_deliver_participant_tokens_singlechain(&mut a), Ok(150_000));
    let before = a.clone();
    assert_eq!(handle_deliver_participant_tokens_singlechain(&mut a), Err(TournamentError::AlreadyPaid));
    assert_eq!(a, before);
}

#[test]
fn each_check_refuses_with_its_error() {
    let mut a = accounts();
    a.operator_info.approved = false;
    assert_eq!(handle_deliver_participant_tokens_singlechain(&mut a), Err(TournamentError::OperatorNotApprovedOrInvalidRole));
    let mut a = accounts();
    a.operator_info.role = Role::Other;
    assert_eq!(handle_deliver_participant_tokens_singlechain(&mut a), Err(TournamentError::OperatorNotApprovedOrInvalidRole));
    let mut a = accounts();
    a.operator_info.role = Role::Owner;
    assert_eq!(handle_deliver_participant_tokens_singlechain(&mut a), Ok(150_000));
    let mut a = accounts();
    a.tournament.status = TournamentStatus::Started;
    assert_eq!(handle_deliver_participant_tokens_singlechain(&mut a), Err(TournamentError::InvalidTournamentStatus));
    let mut a = accounts();
    a.tournament.players_in_team = 3;
    assert_eq!(handle_deliver_participant_tokens_singlechain(&mut a), Err(TournamentError::NotAllTeamsParticipated));
    let mut a = accounts();
    a.team.key = key(10);
    assert_eq!(handle_deliver_participant_tokens_singlechain(&mut a), Err(TournamentError::NotWinner));
    let mut a = accounts();
    a.team.captain = key(30);
    assert_eq!(handle_deliver_participant_tokens_singlechain(&mut a), Err(TournamentError::TeamNotFound));
    let mut a = accounts();
    a.participant = key(22);
    assert_eq!(handle_deliver_participant_tokens_singlechain(&mut a), Err(TournamentError::ParticipantNotFound));
    assert_eq!(a, {
        let mut b = accounts();
        b.participant = key(22);
        b
    });
}

#[test]
fn inconsistent_records_are_not_payable() {
    let mut a = accounts();
    a.tournament.finish_metadata.rewarded_winners = vec![false];
    assert!(!a.is_consistent());
    assert!(!a.is_payable());
    let mut a = accounts();
    a.tournament.finish_metadata.rewards_prize_fractions = vec![7000];
    assert!(!a.is_payable());
    let mut a = accounts();
    a.team.players_money_delivered = vec![false];
    assert!(!a.is_payable());
    let mut a = accounts();
    a.tournament.players_in_team = 0;
    assert!(!a.is_payable());
    let mut a = accounts();
    a.tournament.finish_metadata.remaining_prize_pool = 150_000;
    assert!(a.is_payable());
    a.tournament.finish_metadata.remaining_prize_pool = 149_999;
    assert!(!a.is_payable());
    a.participant = key(22);
    assert!(a.is_consistent());
    assert!(a.is_payable());
    let mut a = accounts();
    a.tournament.finish_metadata.total_prize_pool = u64::MAX;
    assert!(!a.is_payable());
}

#[test]
fn check_gives_the_positions_of_team_and_participant() {
    let a = accounts();
    assert_eq!(a.check(), Ok((1, 1)));
    let mut b = accounts();
    b.team.captain = key(10);
    b.participant = key(20);
    assert_eq!(b.check(), Ok((0, 0)));
}

#[test]
fn position_of_finds_the_first_occurrence() {
    let list = vec![key(1), key(2), key(1)];
    assert_eq!(position_of(&list, &key(1)), Some(0));
    assert_eq!(position_of(&list, &key(2)), Some(1));
    assert_eq!(position_of(&list, &key(3)), None);
}

#[test]
fn all_set_holds_of_no_flags() {
    assert!(all_set(&Vec::new()));
    assert!(all_set(&vec![true, true]));
    assert!(!all_set(&vec![true, false]));
}
