//! Paying out a winning team's prize, one participant at a time: the checks
//! and the bookkeeping around the token transfer.

use vstd::prelude::*;
use crate::bytes::array_eq;
use crate::bytes::LedgerAddress;

verus! {

/// The scale of prize fractions: a fraction of `BP_DEC` is the whole pool.
pub const BP_DEC: u64 = 10_000;

/// Why a payout is refused.
#[derive(Clone, Copy, Debug, PartialEq, Eq, Structural)]
pub enum TournamentError {
    OperatorNotApprovedOrInvalidRole,
    InvalidTournamentStatus,
    NotAllTeamsParticipated,
    NotWinner,
    TeamNotFound,
    AlreadyPaid,
    ParticipantNotFound,
}

/// The role of an operator.
#[derive(Clone, Copy, Debug, PartialEq, Eq, Structural)]
pub enum Role {
    Owner,
    Backend,
    Other,
}

/// What is known of the operator who asks for the payout.
#[derive(Clone, Copy, Debug, PartialEq, Eq, Structural)]
pub struct OperatorInfo {
    pub approved: bool,
    pub role: Role,
}

/// The stage a tournament is in.
#[derive(Clone, Copy, Debug, PartialEq, Eq, Structural)]
pub enum TournamentStatus {
    Announced,
    Started,
    PreFinish,
    Finished,
    Canceled,
}

/// The result of a tournament and the state of its payout.
#[derive(Clone, Debug, PartialEq, Eq)]
pub struct FinishMetadata {
    /// The captains of the winning teams.
    pub winners: Vec<LedgerAddress>,
    /// For each winner, whether its whole team has been paid.
    pub rewarded_winners: Vec<bool>,
    /// For each winner, its share of the pool, out of `BP_DEC`.
    pub rewards_prize_fractions: Vec<u16>,
    pub total_prize_pool: u64,
    pub remaining_prize_pool: u64,
}

/// A tournament.
#[derive(Clone, Debug, PartialEq, Eq)]
pub struct Tournament {
    pub id: u32,
    pub status: TournamentStatus,
    pub players_in_team: u8,
    pub finish_metadata: FinishMetadata,
}

/// A team of a tournament.
#[derive(Clone, Debug, PartialEq, Eq)]
pub struct Team {
    /// The address of the team's own record.
    pub key: LedgerAddress,
    pub captain: LedgerAddress,
    pub players: Vec<LedgerAddress>,
    /// For each player, whether the player has been paid.
    pub players_money_delivered: Vec<bool>,
}

/// What a payout to one participant works on.
#[derive(Clone, Debug, PartialEq, Eq)]
pub struct DeliverParticipantTokensSinglechain {
    pub operator_info: OperatorInfo,
    pub tournament: Tournament,
    pub team: Team,
    /// The participant to be paid.
    pub participant: LedgerAddress,
}

/// The first position at which `s` holds `v`.
pub open spec fn first_position(s: Seq<LedgerAddress>, v: LedgerAddress) -> Option<int> {
    if s.contains(v) {
        Some(
            choose|i: int|
                0 <= i < s.len() && s[i] == v && forall|j: int| 0 <= j < i ==> s[j] != v,
        )
    } else {
        None
    }
}

/// The prize of one participant of the winner at position `winner`: the
/// team's share of the pool, divided evenly among its players, rounded down.
pub open spec fn reward_of(t: &Tournament, winner: int) -> int {
    (t.finish_metadata.total_prize_pool * t.finish_metadata.rewards_prize_fractions@[winner]) / (
    BP_DEC * t.players_in_team)
}

/// Whether the operator may ask for payouts.
pub open spec fn operator_allowed(operator: OperatorInfo) -> bool {
    operator.approved && (operator.role == Role::Backend || operator.role == Role::Owner)
}

impl DeliverParticipantTokensSinglechain {
    /// The check that refuses the payout, if one does, in the order in which
    /// the checks are made.
    pub open spec fn refusal(&self) -> Option<TournamentError> {
        let t = &self.tournament;
        let meta = &t.finish_metadata;
        let team = &self.team;
        if !operator_allowed(self.operator_info) {
            Some(TournamentError::OperatorNotApprovedOrInvalidRole)
        } else if t.status != TournamentStatus::PreFinish {
            Some(TournamentError::InvalidTournamentStatus)
        } else if team.players@.len() != t.players_in_team {
            Some(TournamentError::NotAllTeamsParticipated)
        } else if meta.winners@.contains(team.key) {
            Some(TournamentError::NotWinner)
        } else if first_position(meta.winners@, team.captain) is None {
            Some(TournamentError::TeamNotFound)
        } else if meta.rewarded_winners@[first_position(meta.winners@, team.captain)->0] {
            Some(TournamentError::AlreadyPaid)
        } else if first_position(team.players@, self.participant) is None {
            Some(TournamentError::ParticipantNotFound)
        } else if team.players_money_delivered@[first_position(team.players@, self.participant)->0] {
            Some(TournamentError::AlreadyPaid)
        } else {
            None
        }
    }

    /// The records are consistent: every winner has its payout flag and its
    /// fraction, every player a delivery flag, and teams have players.
    pub open spec fn consistent(&self) -> bool {
        let meta = &self.tournament.finish_metadata;
        &&& meta.rewarded_winners@.len() == meta.winners@.len()
        &&& meta.rewards_prize_fractions@.len() == meta.winners@.len()
        &&& self.team.players_money_delivered@.len() == self.team.players@.len()
        &&& self.tournament.players_in_team > 0
    }

    /// The position of the team among the winners, where no check refuses
    /// the payout.
    pub open spec fn winner(&self) -> int {
        first_position(self.tournament.finish_metadata.winners@, self.team.captain)->0
    }

    /// The position of the participant in the team, where no check refuses
    /// the payout.
    pub open spec fn player(&self) -> int {
        first_position(self.team.players@, self.participant)->0
    }

    /// The payout can be handled: the records are consistent and, where no
    /// check refuses the payout, the prize can be computed in 64 bits and
    /// taken from what remains of the pool.
    pub open spec fn payable(&self) -> bool {
        let meta = &self.tournament.finish_metadata;
        &&& self.consistent()
        &&& self.refusal() is None ==> meta.total_prize_pool
            * meta.rewards_prize_fractions@[self.winner()] <= u64::MAX && reward_of(
            &self.tournament,
            self.winner(),
        ) <= meta.remaining_prize_pool
    }
}

/// The first position at which `list` holds `value`.
pub fn position_of(list: &Vec<LedgerAddress>, value: &LedgerAddress) -> (r: Option<usize>)
    ensures
        r is Some <==> first_position(list@, *value) is Some,
        r matches Some(i) ==> i < list@.len() && first_position(list@, *value) == Some(i as int),
{
    let mut i: usize = 0;
    while i < list.len()
        invariant
            i <= list.len(),
            forall|j: int| 0 <= j < i ==> list@[j] != *value,
        decreases list.len() - i,
    {
        if array_eq(&list[i], value) {
            proof {
                let p = first_position(list@, *value)->0;
                assert(list@.contains(*value));
                if p < i {
                    assert(list@[p] == *value);
                }
                if p > i {
                    assert(list@[i as int] == *value);
                }
            }
            return Some(i);
        }
        i += 1;
    }
    None
}

/// Whether every flag is set.
pub fn all_set(flags: &Vec<bool>) -> (r: bool)
    ensures
        r == (forall|i: int| 0 <= i < flags@.len() ==> flags@[i]),
{
    let mut i: usize = 0;
    while i < flags.len()
        invariant
            i <= flags.len(),
            forall|j: int| 0 <= j < i ==> flags@[j],
        decreases flags.len() - i,
    {
        if !flags[i] {
            return false;
        }
        i += 1;
    }
    true
}

impl DeliverParticipantTokensSinglechain {
    /// Whether the records are consistent.
    pub fn is_consistent(&self) -> (r: bool)
        ensures
            r == self.consistent(),
    {
        let meta = &self.tournament.finish_metadata;
        meta.rewarded_winners.len() == meta.winners.len() && meta.rewards_prize_fractions.len()
            == meta.winners.len() && self.team.players_money_delivered.len()
            == self.team.players.len() && self.tournament.players_in_team > 0
    }

    /// Makes the checks of a payout, in order: the positions of the team
    /// among the winners and of the participant in the team, or the error of
    /// the first check that refuses.
    pub fn check(&self) -> (r: Result<(usize, usize), TournamentError>)
        requires
            self.consistent(),
        ensures
            match self.refusal() {
                Some(e) => r == Err::<(usize, usize), TournamentError>(e),
                None => r matches Ok((w, p)) && w == self.winner() && p == self.player() && w
                    < self.tournament.finish_metadata.winners@.len() && p < self.team.players@.len(),
            },
    {
        let operator = self.operator_info;
        let allowed = operator.approved && (match operator.role {
            Role::Backend => true,
            Role::Owner => true,
            Role::Other => false,
        });
        if !allowed {
            return Err(TournamentError::OperatorNotApprovedOrInvalidRole);
        }
        match self.tournament.status {
            TournamentStatus::PreFinish => {},
            _ => {
                return Err(TournamentError::InvalidTournamentStatus);
            },
        }
        if self.team.players.len() != self.tournament.players_in_team as usize {
            return Err(TournamentError::NotAllTeamsParticipated);
        }
        if position_of(&self.tournament.finish_metadata.winners, &self.team.key).is_some() {
            return Err(TournamentError::NotWinner);
        }
        let winner = match position_of(&self.tournament.finish_metadata.winners, &self.team.captain) {
            Some(i) => i,
            None => {
                return Err(TournamentError::TeamNotFound);
            },
        };
        if self.tournament.finish_metadata.rewarded_winners[winner] {
            return Err(TournamentError::AlreadyPaid);
        }
        let player = match position_of(&self.team.players, &self.participant) {
            Some(i) => i,
            None => {
                return Err(TournamentError::ParticipantNotFound);
            },
        };
        if self.team.players_money_delivered[player] {
            return Err(TournamentError::AlreadyPaid);
        }
        Ok((winner, player))
    }

    /// Whether the payout can be handled.
    pub fn is_payable(&self) -> (r: bool)
        ensures
            r == self.payable(),
    {
        if !self.is_consistent() {
            return false;
        }
        match self.check() {
            Err(_) => true,
            Ok((winner, _)) => {
                let meta = &self.tournament.finish_metadata;
                let pool: u128 = meta.total_prize_pool as u128;
                let fraction: u128 = meta.rewards_prize_fractions[winner] as u128;
                assert(pool * fraction <= 0xffff_ffff_ffff_ffff * 0xffff) by (nonlinear_arith)
                    requires
                        pool <= 0xffff_ffff_ffff_ffff,
                        fraction <= 0xffff,
                ;
                let product: u128 = pool * fraction;
                let divisor: u64 = BP_DEC * (self.tournament.players_in_team as u64);
                product <= (u64::MAX as u128) && product / (divisor as u128) <= (
                meta.remaining_prize_pool as u128)
            },
        }
    }
}

/// Handles the payout of the tournament's prize to one participant of a
/// winning team.
///
/// Where no check refuses it, the participant is marked as paid, the prize
/// is taken from what remains of the pool, the team's winner entry is marked
/// once all of its players are paid, and the prize is returned: it is the
/// amount to transfer from the tournament's vault to the participant's.
/// Where a check refuses it, nothing changes.
pub fn handle_deliver_participant_tokens_singlechain(
    accounts: &mut DeliverParticipantTokensSinglechain,
) -> (r: Result<u64, TournamentError>)
    requires
        old(accounts).payable(),
    ensures
        match old(accounts).refusal() {
            Some(e) => r == Err::<u64, TournamentError>(e) && *final(accounts) == *old(accounts),
            None => {
                let winner = old(accounts).winner();
                let player = old(accounts).player();
                let delivered = old(accounts).team.players_money_delivered@.update(player, true);
                let reward = reward_of(&old(accounts).tournament, winner);
                let before = old(accounts).tournament.finish_metadata;
                let after = final(accounts).tournament.finish_metadata;
                &&& r == Ok::<u64, TournamentError>(reward as u64)
                &&& final(accounts).operator_info == old(accounts).operator_info
                &&& final(accounts).participant == old(accounts).participant
                &&& final(accounts).team.key == old(accounts).team.key
                &&& final(accounts).team.captain == old(accounts).team.captain
                &&& final(accounts).team.players == old(accounts).team.players
                &&& final(accounts).team.players_money_delivered@ == delivered
                &&& final(accounts).tournament.id == old(accounts).tournament.id
                &&& final(accounts).tournament.status == old(accounts).tournament.status
                &&& final(accounts).tournament.players_in_team == old(
                    accounts,
                ).tournament.players_in_team
                &&& after.winners == before.winners
                &&& after.rewards_prize_fractions == before.rewards_prize_fractions
                &&& after.total_prize_pool == before.total_prize_pool
                &&& after.remaining_prize_pool == before.remaining_prize_pool - reward
                &&& after.rewarded_winners@ == if forall|i: int|
                    0 <= i < delivered.len() ==> delivered[i] {
                    before.rewarded_winners@.update(winner, true)
                } else {
                    before.rewarded_winners@
                }
            },
        },
{
    let (winner, player) = match accounts.check() {
        Ok(found) => found,
        Err(e) => {
            return Err(e);
        },
    };
    let fraction: u64 = accounts.tournament.finish_metadata.rewards_prize_fractions[winner] as u64;
    let players: u64 = accounts.tournament.players_in_team as u64;
    let reward: u64 = (accounts.tournament.finish_metadata.total_prize_pool * fraction) / (BP_DEC
        * players);
    accounts.team.players_money_delivered[player] = true;
    accounts.tournament.finish_metadata.remaining_prize_pool =
        accounts.tournament.finish_metadata.remaining_prize_pool - reward;
    if all_set(&accounts.team.players_money_delivered) {
        accounts.tournament.finish_metadata.rewarded_winners[winner] = true;
    }
    Ok(reward)
}

} // verus!
