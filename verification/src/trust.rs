//! A repeated game of trust between two agents.

use vstd::prelude::*;

verus! {

/// How a round went.
#[derive(Clone, Copy, Debug, PartialEq, Eq, Structural)]
pub enum RoundOutcome {
    BothCooperated,
    LeftCheated,
    RightCheated,
    BothCheated,
}

/// What an agent does in a round.
#[derive(Clone, Copy, Debug, PartialEq, Eq, Structural)]
pub enum AgentMove {
    Cooperated,
    Cheated,
}

impl Default for AgentMove {
    fn default() -> (m: AgentMove)
        ensures
            m == AgentMove::Cooperated,
    {
        AgentMove::Cooperated
    }
}

/// The outcome of a round in which the agents made these moves.
pub open spec fn outcome_of(left: AgentMove, right: AgentMove) -> RoundOutcome {
    match (left, right) {
        (AgentMove::Cooperated, AgentMove::Cooperated) => RoundOutcome::BothCooperated,
        (AgentMove::Cooperated, AgentMove::Cheated) => RoundOutcome::RightCheated,
        (AgentMove::Cheated, AgentMove::Cooperated) => RoundOutcome::LeftCheated,
        (AgentMove::Cheated, AgentMove::Cheated) => RoundOutcome::BothCheated,
    }
}

/// What an agent gains in a round by its own move and the other's: two for
/// mutual trust, three for cheating a trusting agent, minus one for being
/// cheated, nothing where both cheat.
pub open spec fn gain(own: AgentMove, other: AgentMove) -> int {
    match (own, other) {
        (AgentMove::Cooperated, AgentMove::Cooperated) => 2,
        (AgentMove::Cooperated, AgentMove::Cheated) => -1,
        (AgentMove::Cheated, AgentMove::Cooperated) => 3,
        (AgentMove::Cheated, AgentMove::Cheated) => 0,
    }
}

/// A player of the game. The move of an agent depends on its state alone,
/// and so does the state it is in afterwards.
pub trait Agent: Sized {
    /// The move that the agent makes when asked next.
    spec fn next_move(&self) -> AgentMove;

    /// The agent after it has made its move.
    spec fn after_move(&self) -> Self;

    /// The agent after it was told the other's move.
    spec fn after_hearing(&self, opponent_move: AgentMove) -> Self;

    /// Makes the agent's move for this round.
    fn play_round(&mut self) -> (made: AgentMove)
        ensures
            made == old(self).next_move(),
            *final(self) == old(self).after_move(),
    ;

    /// Tells the agent what the other one did in this round.
    fn set_prev_opponent_move(&mut self, opponent_move: AgentMove)
        ensures
            *final(self) == old(self).after_hearing(opponent_move),
    ;
}

/// A game between two agents, with their scores.
pub struct Game<L: Agent, R: Agent> {
    left_agent: Box<L>,
    right_agent: Box<R>,
    left_score: i32,
    right_score: i32,
}

impl<L: Agent, R: Agent> Game<L, R> {
    /// The score of the left agent.
    pub closed spec fn left_total(&self) -> int {
        self.left_score as int
    }

    /// The score of the right agent.
    pub closed spec fn right_total(&self) -> int {
        self.right_score as int
    }

    /// The left agent.
    pub closed spec fn left(&self) -> L {
        *self.left_agent
    }

    /// The right agent.
    pub closed spec fn right(&self) -> R {
        *self.right_agent
    }

    /// Whether both scores leave room for one more round.
    pub open spec fn has_room(&self) -> bool {
        &&& i32::MIN < self.left_total() <= i32::MAX - 3
        &&& i32::MIN < self.right_total() <= i32::MAX - 3
    }

    /// A game between two agents, at zero to zero.
    pub fn new(left: Box<L>, right: Box<R>) -> (game: Game<L, R>)
        ensures
            game.left_total() == 0,
            game.right_total() == 0,
            game.left() == *left,
            game.right() == *right,
    {
        Game { left_agent: left, right_agent: right, left_score: 0, right_score: 0 }
    }

    pub fn left_score(&self) -> (score: i32)
        ensures
            score == self.left_total(),
    {
        self.left_score
    }

    pub fn right_score(&self) -> (score: i32)
        ensures
            score == self.right_total(),
    {
        self.right_score
    }

    /// Plays one round: both agents move, each is told the other's move, and
    /// each score grows by what its agent gained.
    pub fn play_round(&mut self) -> (outcome: RoundOutcome)
        requires
            old(self).has_room(),
        ensures
            outcome == outcome_of(old(self).left().next_move(), old(self).right().next_move()),
            final(self).left_total() == old(self).left_total() + gain(
                old(self).left().next_move(),
                old(self).right().next_move(),
            ),
            final(self).right_total() == old(self).right_total() + gain(
                old(self).right().next_move(),
                old(self).left().next_move(),
            ),
            final(self).left() == old(self).left().after_move().after_hearing(
                old(self).right().next_move(),
            ),
            final(self).right() == old(self).right().after_move().after_hearing(
                old(self).left().next_move(),
            ),
    {
        let left_move: AgentMove = self.left_agent.play_round();
        let right_move: AgentMove = self.right_agent.play_round();
        self.left_agent.set_prev_opponent_move(right_move);
        self.right_agent.set_prev_opponent_move(left_move);
        if left_move == AgentMove::Cooperated && right_move == AgentMove::Cooperated {
            self.left_score += 2;
            self.right_score += 2;
            RoundOutcome::BothCooperated
        } else if left_move == AgentMove::Cooperated && right_move == AgentMove::Cheated {
            self.left_score -= 1;
            self.right_score += 3;
            RoundOutcome::RightCheated
        } else if left_move == AgentMove::Cheated && right_move == AgentMove::Cooperated {
            self.left_score += 3;
            self.right_score -= 1;
            RoundOutcome::LeftCheated
        } else {
            RoundOutcome::BothCheated
        }
    }

    /// Plays one round where both scores leave room for it, and none where
    /// they do not.
    pub fn try_play_round(&mut self) -> (outcome: Option<RoundOutcome>)
        ensures
            outcome is Some <==> old(self).has_room(),
            outcome is Some ==> outcome->0 == outcome_of(
                old(self).left().next_move(),
                old(self).right().next_move(),
            ),
            outcome is Some ==> final(self).left_total() == old(self).left_total() + gain(
                old(self).left().next_move(),
                old(self).right().next_move(),
            ),
            outcome is Some ==> final(self).right_total() == old(self).right_total() + gain(
                old(self).right().next_move(),
                old(self).left().next_move(),
            ),
            outcome is Some ==> final(self).left() == old(self).left().after_move().after_hearing(
                old(self).right().next_move(),
            ),
            outcome is Some ==> final(self).right() == old(
                self,
            ).right().after_move().after_hearing(old(self).left().next_move()),
            outcome is None ==> *final(self) == *old(self),
    {
        if self.left_score > i32::MIN && self.left_score <= i32::MAX - 3 && self.right_score
            > i32::MIN && self.right_score <= i32::MAX - 3 {
            Some(self.play_round())
        } else {
            None
        }
    }
}

/// In every round the two agents gain at most four together, and never
/// lose together.
pub proof fn law_round_gain_is_bounded(left: AgentMove, right: AgentMove)
    ensures
        0 <= gain(left, right) + gain(right, left) <= 4,
        gain(left, right) + gain(right, left) == 4 <==> outcome_of(left, right)
            == RoundOutcome::BothCooperated,
{
}

/// An agent that always cheats.
pub struct CheatingAgent {
    pub prev_opponent_move: AgentMove,
}

impl Default for CheatingAgent {
    fn default() -> (agent: CheatingAgent)
        ensures
            agent.prev_opponent_move == AgentMove::Cooperated,
    {
        CheatingAgent { prev_opponent_move: AgentMove::Cooperated }
    }
}

impl Agent for CheatingAgent {
    open spec fn next_move(&self) -> AgentMove {
        AgentMove::Cheated
    }

    open spec fn after_move(&self) -> CheatingAgent {
        *self
    }

    open spec fn after_hearing(&self, opponent_move: AgentMove) -> CheatingAgent {
        CheatingAgent { prev_opponent_move: opponent_move }
    }

    fn play_round(&mut self) -> (made: AgentMove) {
        AgentMove::Cheated
    }

    fn set_prev_opponent_move(&mut self, opponent_move: AgentMove) {
        self.prev_opponent_move = opponent_move;
    }
}

/// An agent that always cooperates.
pub struct CooperatingAgent {
    pub prev_opponent_move: AgentMove,
}

impl Default for CooperatingAgent {
    fn default() -> (agent: CooperatingAgent)
        ensures
            agent.prev_opponent_move == AgentMove::Cooperated,
    {
        CooperatingAgent { prev_opponent_move: AgentMove::Cooperated }
    }
}

impl Agent for CooperatingAgent {
    open spec fn next_move(&self) -> AgentMove {
        AgentMove::Cooperated
    }

    open spec fn after_move(&self) -> CooperatingAgent {
        *self
    }

    open spec fn after_hearing(&self, opponent_move: AgentMove) -> CooperatingAgent {
        CooperatingAgent { prev_opponent_move: opponent_move }
    }

    fn play_round(&mut self) -> (made: AgentMove) {
        AgentMove::Cooperated
    }

    fn set_prev_opponent_move(&mut self, opponent_move: AgentMove) {
        self.prev_opponent_move = opponent_move;
    }
}

/// An agent that cooperates until it is cheated once, and cheats from then
/// on.
pub struct GrudgerAgent {
    pub prev_opponent_move: AgentMove,
    is_deceived: bool,
}

impl GrudgerAgent {
    /// What the agent was last told of the other's move.
    pub closed spec fn heard(&self) -> AgentMove {
        self.prev_opponent_move
    }

    /// Whether the agent has taken note of having been cheated.
    pub closed spec fn noted(&self) -> bool {
        self.is_deceived
    }

    /// Whether the agent has been cheated, the last round included.
    pub open spec fn deceived(&self) -> bool {
        self.noted() || self.heard() == AgentMove::Cheated
    }
}

impl Default for GrudgerAgent {
    fn default() -> (agent: GrudgerAgent)
        ensures
            agent.heard() == AgentMove::Cooperated,
            !agent.noted(),
    {
        GrudgerAgent { prev_opponent_move: AgentMove::Cooperated, is_deceived: false }
    }
}

impl Agent for GrudgerAgent {
    open spec fn next_move(&self) -> AgentMove {
        if self.deceived() {
            AgentMove::Cheated
        } else {
            AgentMove::Cooperated
        }
    }

    closed spec fn after_move(&self) -> GrudgerAgent {
        GrudgerAgent { prev_opponent_move: self.prev_opponent_move, is_deceived: self.deceived() }
    }

    closed spec fn after_hearing(&self, opponent_move: AgentMove) -> GrudgerAgent {
        GrudgerAgent { prev_opponent_move: opponent_move, is_deceived: self.is_deceived }
    }

    fn play_round(&mut self) -> (made: AgentMove)
        ensures
            final(self).noted() == old(self).deceived(),
            final(self).heard() == old(self).heard(),
    {
        if self.prev_opponent_move == AgentMove::Cheated {
            self.is_deceived = true;
        }
        if self.is_deceived {
            return AgentMove::Cheated;
        }
        AgentMove::Cooperated
    }

    fn set_prev_opponent_move(&mut self, opponent_move: AgentMove)
        ensures
            final(self).heard() == opponent_move,
            final(self).noted() == old(self).noted(),
    {
        self.prev_opponent_move = opponent_move;
    }
}

/// An agent that cooperates first and then repeats the other's last move.
pub struct CopycatAgent {
    pub prev_opponent_move: AgentMove,
    is_first_move: bool,
}

impl CopycatAgent {
    /// What the agent was last told of the other's move.
    pub closed spec fn heard(&self) -> AgentMove {
        self.prev_opponent_move
    }

    /// Whether the agent has made its first move.
    pub closed spec fn has_moved(&self) -> bool {
        self.is_first_move
    }
}

impl Default for CopycatAgent {
    fn default() -> (agent: CopycatAgent)
        ensures
            agent.heard() == AgentMove::Cooperated,
            !agent.has_moved(),
    {
        CopycatAgent { prev_opponent_move: AgentMove::Cooperated, is_first_move: false }
    }
}

impl Agent for CopycatAgent {
    open spec fn next_move(&self) -> AgentMove {
        if self.has_moved() {
            self.heard()
        } else {
            AgentMove::Cooperated
        }
    }

    closed spec fn after_move(&self) -> CopycatAgent {
        CopycatAgent { prev_opponent_move: self.prev_opponent_move, is_first_move: true }
    }

    closed spec fn after_hearing(&self, opponent_move: AgentMove) -> CopycatAgent {
        CopycatAgent { prev_opponent_move: opponent_move, is_first_move: self.is_first_move }
    }

    fn play_round(&mut self) -> (made: AgentMove)
        ensures
            final(self).has_moved(),
            final(self).heard() == old(self).heard(),
    {
        if !self.is_first_move {
            self.is_first_move = true;
            return AgentMove::Cooperated;
        }
        self.prev_opponent_move
    }

    fn set_prev_opponent_move(&mut self, opponent_move: AgentMove)
        ensures
            final(self).heard() == opponent_move,
            final(self).has_moved() == old(self).has_moved(),
    {
        self.prev_opponent_move = opponent_move;
    }
}

/// An agent that opens with cooperate, cheat, cooperate, cooperate; if it
/// was never cheated by the end of that opening it cheats from then on, and
/// otherwise it repeats the other's last move.
pub struct DetectiveAgent {
    pub prev_opponent_move: AgentMove,
    is_deceived: bool,
    is_always_cheat: bool,
    index: usize,
}

/// The opening moves of the detective.
pub open spec fn detective_opening(round: int) -> AgentMove {
    if round == 1 {
        AgentMove::Cheated
    } else {
        AgentMove::Cooperated
    }
}

impl DetectiveAgent {
    /// What the agent was last told of the other's move.
    pub closed spec fn heard(&self) -> AgentMove {
        self.prev_opponent_move
    }

    /// The number of opening moves made, up to four.
    pub closed spec fn opening_moves(&self) -> nat {
        self.index as nat
    }

    /// Whether the agent has taken note of having been cheated.
    pub closed spec fn noted(&self) -> bool {
        self.is_deceived
    }

    /// Whether the agent has been cheated, the last round included.
    pub open spec fn deceived(&self) -> bool {
        self.noted() || self.heard() == AgentMove::Cheated
    }

    /// Whether the agent has settled on cheating.
    pub closed spec fn always_cheats(&self) -> bool {
        self.is_always_cheat
    }
}

impl Default for DetectiveAgent {
    fn default() -> (agent: DetectiveAgent)
        ensures
            agent.heard() == AgentMove::Cooperated,
            agent.opening_moves() == 0,
            !agent.noted(),
            !agent.always_cheats(),
    {
        DetectiveAgent {
            prev_opponent_move: AgentMove::Cooperated,
            is_deceived: false,
            is_always_cheat: false,
            index: 0,
        }
    }
}

impl Agent for DetectiveAgent {
    open spec fn next_move(&self) -> AgentMove {
        if self.opening_moves() < 4 {
            detective_opening(self.opening_moves() as int)
        } else if self.always_cheats() || !self.deceived() {
            AgentMove::Cheated
        } else {
            self.heard()
        }
    }

    closed spec fn after_move(&self) -> DetectiveAgent {
        DetectiveAgent {
            prev_opponent_move: self.prev_opponent_move,
            is_deceived: self.deceived(),
            is_always_cheat: if self.index < 4 {
                self.is_always_cheat
            } else {
                self.is_always_cheat || !self.deceived()
            },
            index: if self.index < 4 {
                (self.index + 1) as usize
            } else {
                self.index
            },
        }
    }

    closed spec fn after_hearing(&self, opponent_move: AgentMove) -> DetectiveAgent {
        DetectiveAgent {
            prev_opponent_move: opponent_move,
            is_deceived: self.is_deceived,
            is_always_cheat: self.is_always_cheat,
            index: self.index,
        }
    }

    fn play_round(&mut self) -> (made: AgentMove)
        ensures
            final(self).heard() == old(self).heard(),
            final(self).noted() == old(self).deceived(),
            old(self).opening_moves() < 4 ==> final(self).opening_moves() == old(
                self,
            ).opening_moves() + 1 && final(self).always_cheats() == old(self).always_cheats(),
            old(self).opening_moves() >= 4 ==> final(self).opening_moves() == old(
                self,
            ).opening_moves() && final(self).always_cheats() == (old(self).always_cheats() || !old(
                self,
            ).deceived()),
    {
        if self.prev_opponent_move == AgentMove::Cheated {
            self.is_deceived = true;
        }
        if self.index < 4 {
            self.index += 1;
            return if self.index == 2 {
                AgentMove::Cheated
            } else {
                AgentMove::Cooperated
            };
        }
        if !self.is_deceived {
            self.is_always_cheat = true;
        }
        if self.is_always_cheat {
            return AgentMove::Cheated;
        }
        self.prev_opponent_move
    }

    fn set_prev_opponent_move(&mut self, opponent_move: AgentMove)
        ensures
            final(self).heard() == opponent_move,
            final(self).noted() == old(self).noted(),
            final(self).opening_moves() == old(self).opening_moves(),
            final(self).always_cheats() == old(self).always_cheats(),
    {
        self.prev_opponent_move = opponent_move;
    }
}

/// What a move and a report do to a grudger: a move takes note of a cheat
/// that was reported, a report is remembered until the next one.
pub proof fn lemma_grudger_steps(agent: GrudgerAgent, opponent_move: AgentMove)
    ensures
        agent.after_move().noted() == agent.deceived(),
        agent.after_move().heard() == agent.heard(),
        agent.after_hearing(opponent_move).noted() == agent.noted(),
        agent.after_hearing(opponent_move).heard() == opponent_move,
{
}

/// What a move and a report do to a copycat.
pub proof fn lemma_copycat_steps(agent: CopycatAgent, opponent_move: AgentMove)
    ensures
        agent.after_move().has_moved(),
        agent.after_move().heard() == agent.heard(),
        agent.after_hearing(opponent_move).has_moved() == agent.has_moved(),
        agent.after_hearing(opponent_move).heard() == opponent_move,
{
}

/// What a move and a report do to a detective.
pub proof fn lemma_detective_steps(agent: DetectiveAgent, opponent_move: AgentMove)
    requires
        agent.opening_moves() <= 4,
    ensures
        agent.after_move().noted() == agent.deceived(),
        agent.after_move().heard() == agent.heard(),
        agent.after_move().opening_moves() == if agent.opening_moves() < 4 {
            agent.opening_moves() + 1
        } else {
            agent.opening_moves()
        },
        agent.after_move().always_cheats() == if agent.opening_moves() < 4 {
            agent.always_cheats()
        } else {
            agent.always_cheats() || !agent.deceived()
        },
        agent.after_hearing(opponent_move).noted() == agent.noted(),
        agent.after_hearing(opponent_move).heard() == opponent_move,
        agent.after_hearing(opponent_move).opening_moves() == agent.opening_moves(),
        agent.after_hearing(opponent_move).always_cheats() == agent.always_cheats(),
{
}

/// A grudger that was cheated once cheats in every later round, whatever
/// it is told.
pub proof fn law_grudger_never_forgives(agent: GrudgerAgent, opponent_move: AgentMove)
    requires
        agent.deceived(),
    ensures
        agent.next_move() == AgentMove::Cheated,
        agent.after_move().after_hearing(opponent_move).deceived(),
        agent.after_move().after_hearing(opponent_move).next_move() == AgentMove::Cheated,
{
    lemma_grudger_steps(agent, opponent_move);
    lemma_grudger_steps(agent.after_move(), opponent_move);
}

} // verus!
