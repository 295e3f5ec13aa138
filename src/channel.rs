use vstd::prelude::*;

use crate::handler::{ChannelHandler, ChannelHandlerInitiationData, PeerEnv};
use crate::protocol::Transition;
use crate::types::{
    games_view, Aggsig, ChannelHandlerPrivateKeys, GameID, GameStart, GameStartView,
    PotatoSignatures, PuzzleHash,
};

verus! {

/// One state change the channel handler agreed to: one it signed (`Sent`),
/// with what it returned, or one it checked (`Checked`), with what it was given.
pub enum ChannelEvent {
    SentNil(PotatoSignatures),
    CheckedNil(PotatoSignatures),
    SentStartGames(Seq<GameStartView>),
    CheckedStartGames(Seq<GameStartView>),
    SentMove(GameID, Seq<u8>, PotatoSignatures),
    CheckedMove(GameID, Seq<u8>, PotatoSignatures),
    SentAccept(GameID, PotatoSignatures),
    CheckedAccept(GameID, PotatoSignatures),
    SentShutdown(Aggsig),
    CheckedShutdown(Aggsig),
}

/// The channel transition an event stands for.
pub open spec fn event_transition(e: ChannelEvent) -> Transition {
    match e {
        ChannelEvent::SentNil(_) => Transition::Nil,
        ChannelEvent::CheckedNil(_) => Transition::Nil,
        ChannelEvent::SentStartGames(g) => Transition::StartGames(g),
        ChannelEvent::CheckedStartGames(g) => Transition::StartGames(g),
        ChannelEvent::SentMove(id, b, _) => Transition::Move(id, b),
        ChannelEvent::CheckedMove(id, b, _) => Transition::Move(id, b),
        ChannelEvent::SentAccept(id, _) => Transition::Accept(id),
        ChannelEvent::CheckedAccept(id, _) => Transition::Accept(id),
        ChannelEvent::SentShutdown(_) => Transition::Shutdown,
        ChannelEvent::CheckedShutdown(_) => Transition::Shutdown,
    }
}

/// What a peer's channel handler is, as far as this peer has dealt with it:
/// what it was made with, the channel coin's puzzle hash it reported when
/// made, every state change it agreed to, in order, and their transitions.
pub struct ChannelModel {
    pub made_with: ChannelHandlerInitiationData,
    pub keys: ChannelHandlerPrivateKeys,
    pub puzzle_hash: PuzzleHash,
    pub record: Seq<ChannelEvent>,
    pub log: Seq<Transition>,
}

/// A model with one more agreed state change.
pub open spec fn model_with(c: ChannelModel, e: ChannelEvent) -> ChannelModel {
    ChannelModel { record: c.record.push(e), log: c.log.push(event_transition(e)), ..c }
}

/// A channel handler, and a record of every call that it accepted: each
/// method makes one call and records what went in and what came back.
pub struct Channel<C> {
    inner: C,
    made_with: ChannelHandlerInitiationData,
    keys: ChannelHandlerPrivateKeys,
    puzzle_hash: PuzzleHash,
    record: Ghost<Seq<ChannelEvent>>,
    log: Ghost<Seq<Transition>>,
}

impl<C> View for Channel<C> {
    type V = ChannelModel;

    closed spec fn view(&self) -> ChannelModel {
        ChannelModel {
            made_with: self.made_with,
            keys: self.keys,
            puzzle_hash: self.puzzle_hash,
            record: self.record@,
            log: self.log@,
        }
    }
}

impl<C: ChannelHandler> Channel<C> {
    /// Has the environment make a channel handler from `keys` and `init`, and
    /// asks it for the channel coin's puzzle hash.
    pub fn make<E: PeerEnv<C>>(
        env: &mut E,
        keys: &ChannelHandlerPrivateKeys,
        init: ChannelHandlerInitiationData,
    ) -> (r: Option<Channel<C>>)
        ensures
            r is Some ==> {
                let c = r->0@;
                &&& c.made_with == init
                &&& c.keys == *keys
                &&& c.record == Seq::<ChannelEvent>::empty()
                &&& c.log == Seq::<Transition>::empty()
            },
    {
        match env.new_channel_handler(keys, &init) {
            Some(inner) => {
                let puzzle_hash = inner.channel_puzzle_hash();
                Some(
                    Channel {
                        inner,
                        made_with: init,
                        keys: *keys,
                        puzzle_hash,
                        record: Ghost(Seq::empty()),
                        log: Ghost(Seq::empty()),
                    },
                )
            },
            None => None,
        }
    }

    pub fn inner(&self) -> &C {
        &self.inner
    }

    pub fn puzzle_hash(&self) -> (r: PuzzleHash)
        ensures
            r == self@.puzzle_hash,
    {
        self.puzzle_hash
    }

    fn note(&mut self, Ghost(e): Ghost<ChannelEvent>)
        ensures
            final(self)@ == model_with(old(self)@, e),
    {
        self.record = Ghost(self.record@.push(e));
        self.log = Ghost(self.log@.push(event_transition(e)));
    }

    pub fn send_empty_potato(&mut self) -> (r: Option<PotatoSignatures>)
        ensures
            match r {
                Some(s) => final(self)@ == model_with(old(self)@, ChannelEvent::SentNil(s)),
                None => final(self)@ == old(self)@,
            },
    {
        let r = self.inner.send_empty_potato();
        match r {
            Some(s) => {
                self.note(Ghost(ChannelEvent::SentNil(s)));
            },
            None => {},
        }
        r
    }

    pub fn received_empty_potato(&mut self, sigs: &PotatoSignatures) -> (ok: bool)
        ensures
            ok ==> final(self)@ == model_with(old(self)@, ChannelEvent::CheckedNil(*sigs)),
            !ok ==> final(self)@ == old(self)@,
    {
        let ok = self.inner.received_empty_potato(sigs);
        if ok {
            self.note(Ghost(ChannelEvent::CheckedNil(*sigs)));
        }
        ok
    }

    pub fn send_potato_start_game(&mut self, games: &Vec<GameStart>) -> (ok: bool)
        ensures
            ok ==> final(self)@ == model_with(
                old(self)@,
                ChannelEvent::SentStartGames(games_view(games@)),
            ),
            !ok ==> final(self)@ == old(self)@,
    {
        let ok = self.inner.send_potato_start_game(games);
        if ok {
            self.note(Ghost(ChannelEvent::SentStartGames(games_view(games@))));
        }
        ok
    }

    pub fn received_potato_start_game(&mut self, games: &Vec<GameStart>) -> (ok: bool)
        ensures
            ok ==> final(self)@ == model_with(
                old(self)@,
                ChannelEvent::CheckedStartGames(games_view(games@)),
            ),
            !ok ==> final(self)@ == old(self)@,
    {
        let ok = self.inner.received_potato_start_game(games);
        if ok {
            self.note(Ghost(ChannelEvent::CheckedStartGames(games_view(games@))));
        }
        ok
    }

    pub fn send_potato_move(&mut self, id: &GameID, readable: &Vec<u8>) -> (r: Option<
        PotatoSignatures,
    >)
        ensures
            match r {
                Some(s) => final(self)@ == model_with(
                    old(self)@,
                    ChannelEvent::SentMove(*id, readable@, s),
                ),
                None => final(self)@ == old(self)@,
            },
    {
        let r = self.inner.send_potato_move(id, readable);
        match r {
            Some(s) => {
                self.note(Ghost(ChannelEvent::SentMove(*id, readable@, s)));
            },
            None => {},
        }
        r
    }

    pub fn received_potato_move(
        &mut self,
        id: &GameID,
        readable: &Vec<u8>,
        sigs: &PotatoSignatures,
    ) -> (ok: bool)
        ensures
            ok ==> final(self)@ == model_with(
                old(self)@,
                ChannelEvent::CheckedMove(*id, readable@, *sigs),
            ),
            !ok ==> final(self)@ == old(self)@,
    {
        let ok = self.inner.received_potato_move(id, readable, sigs);
        if ok {
            self.note(Ghost(ChannelEvent::CheckedMove(*id, readable@, *sigs)));
        }
        ok
    }

    pub fn send_potato_accept(&mut self, id: &GameID) -> (r: Option<PotatoSignatures>)
        ensures
            match r {
                Some(s) => final(self)@ == model_with(old(self)@, ChannelEvent::SentAccept(*id, s)),
                None => final(self)@ == old(self)@,
            },
    {
        let r = self.inner.send_potato_accept(id);
        match r {
            Some(s) => {
                self.note(Ghost(ChannelEvent::SentAccept(*id, s)));
            },
            None => {},
        }
        r
    }

    pub fn received_potato_accept(&mut self, id: &GameID, sigs: &PotatoSignatures) -> (ok: bool)
        ensures
            ok ==> final(self)@ == model_with(old(self)@, ChannelEvent::CheckedAccept(*id, *sigs)),
            !ok ==> final(self)@ == old(self)@,
    {
        let ok = self.inner.received_potato_accept(id, sigs);
        if ok {
            self.note(Ghost(ChannelEvent::CheckedAccept(*id, *sigs)));
        }
        ok
    }

    pub fn send_potato_clean_shutdown(&mut self) -> (r: Option<Aggsig>)
        ensures
            match r {
                Some(s) => final(self)@ == model_with(old(self)@, ChannelEvent::SentShutdown(s)),
                None => final(self)@ == old(self)@,
            },
    {
        let r = self.inner.send_potato_clean_shutdown();
        match r {
            Some(s) => {
                self.note(Ghost(ChannelEvent::SentShutdown(s)));
            },
            None => {},
        }
        r
    }

    pub fn received_potato_clean_shutdown(&mut self, sig: &Aggsig) -> (ok: bool)
        ensures
            ok ==> final(self)@ == model_with(old(self)@, ChannelEvent::CheckedShutdown(*sig)),
            !ok ==> final(self)@ == old(self)@,
    {
        let ok = self.inner.received_potato_clean_shutdown(sig);
        if ok {
            self.note(Ghost(ChannelEvent::CheckedShutdown(*sig)));
        }
        ok
    }
}

} // verus!
