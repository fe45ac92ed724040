//! A player seat: the player's stable identity, connection and countdown clock.

use vstd::prelude::*;

verus! {

/// A per-player countdown: whole seconds left and whether it is counting.
#[derive(Debug, Clone, Copy, PartialEq, Eq, Structural)]
pub struct PlayerClock {
    pub remaining: u64,
    pub running: bool,
}

impl PlayerClock {
    /// A stopped clock holding `seconds`.
    pub fn new(seconds: u64) -> (r: Self)
        ensures
            r == (PlayerClock { remaining: seconds, running: false }),
    {
        PlayerClock { remaining: seconds, running: false }
    }

    /// Starts counting down (any earlier countdown is replaced); time is kept.
    pub fn start(&mut self)
        ensures
            *final(self) == (PlayerClock { remaining: old(self).remaining, running: true }),
    {
        self.running = true;
    }

    /// Stops counting down; time is kept.
    pub fn stop(&mut self)
        ensures
            *final(self) == (PlayerClock { remaining: old(self).remaining, running: false }),
    {
        self.running = false;
    }

    /// Sets the time left; whether it counts is kept.
    pub fn reset(&mut self, seconds: u64)
        ensures
            *final(self) == (PlayerClock { remaining: seconds, running: old(self).running }),
    {
        self.remaining = seconds;
    }

    /// One second passes: a running clock with time left loses a second; a
    /// running clock at zero stops itself; a stopped clock is unchanged.
    pub fn tick(&mut self)
        ensures
            *final(self) == tick_clock(*old(self)),
    {
        if self.running {
            if self.remaining > 0 {
                self.remaining = self.remaining - 1;
            } else {
                self.running = false;
            }
        }
    }
}

/// A clock after one second.
pub open spec fn tick_clock(c: PlayerClock) -> PlayerClock {
    if !c.running {
        c
    } else if c.remaining > 0 {
        PlayerClock { remaining: (c.remaining - 1) as u64, running: true }
    } else {
        PlayerClock { remaining: 0, running: false }
    }
}

/// What a player seat holds.
pub struct UserView {
    pub id: Seq<char>,
    pub name: Seq<char>,
    pub avatar: Seq<char>,
    pub avatar_orientation: u8,
    pub avatar_color: Seq<char>,
    pub chess_color: Seq<char>,
    pub connected: bool,
    pub clock: PlayerClock,
}

/// A player seat: connection id (it changes across reconnects), stable
/// identity, board-game side, connection flag and clock.
#[derive(Debug, Clone)]
pub struct User {
    id: String,
    name: String,
    avatar: String,
    avatar_orientation: u8,
    avatar_color: String,
    chess_color: String,
    connected: bool,
    clock: PlayerClock,
}

impl View for User {
    type V = UserView;

    closed spec fn view(&self) -> UserView {
        UserView {
            id: self.id@,
            name: self.name@,
            avatar: self.avatar@,
            avatar_orientation: self.avatar_orientation,
            avatar_color: self.avatar_color@,
            chess_color: self.chess_color@,
            connected: self.connected,
            clock: self.clock,
        }
    }
}

/// Whether a seat's stable identity is the given one.
pub open spec fn same_identity(
    u: UserView,
    name: Seq<char>,
    avatar: Seq<char>,
    avatar_orientation: u8,
    avatar_color: Seq<char>,
) -> bool {
    &&& u.name == name
    &&& u.avatar == avatar
    &&& u.avatar_orientation == avatar_orientation
    &&& u.avatar_color == avatar_color
}

/// A newly seated, connected player whose clock is stopped at `time`.
pub open spec fn fresh_user(
    id: Seq<char>,
    name: Seq<char>,
    avatar: Seq<char>,
    avatar_orientation: u8,
    avatar_color: Seq<char>,
    chess_color: Seq<char>,
    time: u64,
) -> UserView {
    UserView {
        id,
        name,
        avatar,
        avatar_orientation,
        avatar_color,
        chess_color,
        connected: true,
        clock: PlayerClock { remaining: time, running: false },
    }
}

impl User {
    pub fn new(
        id: String,
        name: String,
        avatar: String,
        avatar_orientation: u8,
        avatar_color: String,
        chess_color: String,
        initial_time: u64,
    ) -> (r: Self)
        ensures
            r@ == fresh_user(
                id@,
                name@,
                avatar@,
                avatar_orientation,
                avatar_color@,
                chess_color@,
                initial_time,
            ),
    {
        User {
            id,
            name,
            avatar,
            avatar_orientation,
            avatar_color,
            chess_color,
            connected: true,
            clock: PlayerClock::new(initial_time),
        }
    }

    /// A copy of the seat.
    pub fn snapshot(&self) -> (r: Self)
        ensures
            r@ == self@,
    {
        User {
            id: self.id.clone(),
            name: self.name.clone(),
            avatar: self.avatar.clone(),
            avatar_orientation: self.avatar_orientation,
            avatar_color: self.avatar_color.clone(),
            chess_color: self.chess_color.clone(),
            connected: self.connected,
            clock: self.clock,
        }
    }

    pub fn get_id(&self) -> (r: String)
        ensures
            r@ == self@.id,
    {
        self.id.clone()
    }

    pub fn get_name(&self) -> (r: String)
        ensures
            r@ == self@.name,
    {
        self.name.clone()
    }

    pub fn get_avatar(&self) -> (r: String)
        ensures
            r@ == self@.avatar,
    {
        self.avatar.clone()
    }

    pub fn get_avatar_orientation(&self) -> (r: u8)
        ensures
            r == self@.avatar_orientation,
    {
        self.avatar_orientation
    }

    pub fn get_avatar_color(&self) -> (r: String)
        ensures
            r@ == self@.avatar_color,
    {
        self.avatar_color.clone()
    }

    pub fn set_chess_color(&mut self, color: String)
        ensures
            final(self)@ == (UserView { chess_color: color@, ..old(self)@ }),
    {
        self.chess_color = color;
    }

    pub fn get_chess_color(&self) -> (r: String)
        ensures
            r@ == self@.chess_color,
    {
        self.chess_color.clone()
    }

    /// Seconds left on the player's clock.
    pub fn get_time(&self) -> (r: u64)
        ensures
            r == self@.clock.remaining,
    {
        self.clock.remaining
    }

    /// The player's clock.
    pub fn get_clock(&self) -> (r: PlayerClock)
        ensures
            r == self@.clock,
    {
        self.clock
    }

    /// Starts the player's countdown, replacing any running one.
    pub fn start_turn(&mut self)
        ensures
            final(self)@ == (UserView {
                clock: PlayerClock { remaining: old(self)@.clock.remaining, running: true },
                ..old(self)@
            }),
    {
        self.clock.start();
    }

    /// Stops the player's countdown; the time left is kept.
    pub fn end_turn(&mut self)
        ensures
            final(self)@ == (UserView {
                clock: PlayerClock { remaining: old(self)@.clock.remaining, running: false },
                ..old(self)@
            }),
    {
        self.clock.stop();
    }

    /// Sets the time left on the player's clock.
    pub fn reset_time(&mut self, time: u64)
        ensures
            final(self)@ == (UserView {
                clock: PlayerClock { remaining: time, running: old(self)@.clock.running },
                ..old(self)@
            }),
    {
        self.clock.reset(time);
    }

    /// One second passes on the player's clock.
    pub fn tick(&mut self)
        ensures
            final(self)@ == (UserView { clock: tick_clock(old(self)@.clock), ..old(self)@ }),
    {
        self.clock.tick();
    }

    pub fn disconnect(&mut self)
        ensures
            final(self)@ == (UserView { connected: false, ..old(self)@ }),
    {
        self.connected = false;
    }

    pub fn is_connected(&self) -> (r: bool)
        ensures
            r == self@.connected,
    {
        self.connected
    }

    /// The player is back under a new connection id; everything else is kept.
    pub fn reconnect(&mut self, id: String)
        ensures
            final(self)@ == (UserView { id: id@, connected: true, ..old(self)@ }),
    {
        self.connected = true;
        self.id = id;
    }

    /// Whether this seat's stable identity is the given one.
    pub fn matches(
        &self,
        name: &String,
        avatar: &String,
        avatar_orientation: &u8,
        avatar_color: &String,
    ) -> (r: bool)
        ensures
            r == same_identity(self@, name@, avatar@, *avatar_orientation, avatar_color@),
    {
        self.name == *name && self.avatar == *avatar && self.avatar_orientation
            == *avatar_orientation && self.avatar_color == *avatar_color
    }
}

} // verus!
