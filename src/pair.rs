use vstd::prelude::*;

use crate::handler::{
    absorbed, allowed, checked_event, drained, handled, intent_sent, sent_event, sent_one, step_keeps,
    with_event, HandlerView, OurKeys, Phase,
};
use crate::channel::{event_transition, ChannelEvent};
use crate::protocol::{
    lemma_potatoes_concat, lemma_sent_concat, lemma_single, lemma_transitions_concat,
    lemma_transitions_need_potatoes, potatoes, sent, transitions, EffectView, Transition,
};
use crate::types::MessageView;

verus! {

proof fn lemma_two(x: MessageView, y: MessageView)
    ensures
        transitions(seq![x, y]) == transitions(seq![x]) + transitions(seq![y]),
        potatoes(seq![x, y]) == potatoes(seq![x]) + potatoes(seq![y]),
{
    assert(seq![x, y] =~= seq![x] + seq![y]);
    lemma_transitions_concat(seq![x], seq![y]);
    lemma_potatoes_concat(seq![x], seq![y]);
}

/// The transition a message announces is the one its channel event stands
/// for, whether this peer signed it or checked it.
pub proof fn lemma_event_transition(m: MessageView)
    requires
        m is Nil || m is StartGames || m is Move || m is Accept || m is Shutdown,
    ensures
        transitions(seq![m]) == seq![event_transition(sent_event(m))],
        transitions(seq![m]) == seq![event_transition(checked_event(m))],
{
    lemma_single(m);
}

/// A peer's log once its channel handler agreed to one more state change.
pub proof fn lemma_log_with_event(v: HandlerView, e: ChannelEvent)
    requires
        v.has_channel(),
    ensures
        with_event(v, e).log() == v.log().push(event_transition(e)),
{
}

proof fn lemma_sent_one_keeps(rest: HandlerView, post: HandlerView, out: Seq<MessageView>)
    requires
        sent_one(rest, post, out),
        rest.has_channel(),
        out[0] is StartGames || out[0] is Move || out[0] is Accept || out[0] is Shutdown,
    ensures
        post.have_potato as int + potatoes(out) == 1,
        post.log() == rest.log() + transitions(out),
{
    let x = out[0];
    lemma_single(x);
    lemma_event_transition(x);
    lemma_log_with_event(rest, sent_event(x));
    lemma_single(MessageView::RequestPotato);
    lemma_two(x, MessageView::RequestPotato);
    if rest.my_start_queue.len() > 0 {
        assert(out == seq![x, MessageView::RequestPotato]);
        assert(transitions(out) =~= transitions(seq![x]));
    } else {
        assert(out == seq![x]);
    }
}

/// A holder that uses its potato hands over exactly one, or keeps it.
pub proof fn lemma_drained_keeps(pre: HandlerView, post: HandlerView, out: Seq<MessageView>)
    requires
        drained(pre, post, out),
        pre.have_potato,
        pre.has_channel(),
    ensures
        step_keeps(pre, post, Seq::empty(), out),
{
    lemma_transitions_concat(Seq::<MessageView>::empty(), Seq::<MessageView>::empty());
    assert(transitions(Seq::<MessageView>::empty()) == Seq::<Transition>::empty());
    if pre.my_start_queue.len() > 0 {
        lemma_sent_one_keeps(
            HandlerView { my_start_queue: pre.my_start_queue.drop_first(), ..pre },
            post,
            out,
        );
    } else if pre.pending_moves.len() > 0 {
        lemma_sent_one_keeps(
            HandlerView { pending_moves: pre.pending_moves.drop_first(), ..pre },
            post,
            out,
        );
    } else if pre.pending_accepts.len() > 0 {
        lemma_sent_one_keeps(
            HandlerView { pending_accepts: pre.pending_accepts.drop_first(), ..pre },
            post,
            out,
        );
    } else if pre.shutdown_pending {
        lemma_sent_one_keeps(HandlerView { shutdown_pending: false, ..pre }, post, out);
    } else {
        assert(out =~= Seq::<MessageView>::empty());
    }
    assert(pre.log() + transitions(Seq::<MessageView>::empty()) + transitions(out) =~= pre.log()
        + transitions(out));
}

/// A local intent keeps the potato's bookkeeping.
pub proof fn lemma_intent_keeps(mid: HandlerView, post: HandlerView, out: Seq<MessageView>)
    requires
        intent_sent(mid, post, out),
        mid.has_channel(),
    ensures
        step_keeps(mid, post, Seq::empty(), out),
{
    assert(transitions(Seq::<MessageView>::empty()) == Seq::<Transition>::empty());
    if mid.have_potato {
        lemma_drained_keeps(mid, post, out);
    } else {
        lemma_single(MessageView::RequestPotato);
        assert(mid.log() + transitions(Seq::<MessageView>::empty()) + transitions(out) =~= mid.log());
    }
}

proof fn lemma_sent_literal(x: EffectView, y: EffectView)
    ensures
        sent(seq![x]) == match x {
            EffectView::Send(m) => seq![m],
            _ => Seq::<MessageView>::empty(),
        },
        sent(seq![x, y]) == sent(seq![x]) + sent(seq![y]),
{
    assert(seq![x].drop_last() =~= Seq::<EffectView>::empty());
    assert(seq![x].last() == x);
    assert(sent(Seq::<EffectView>::empty()) == Seq::<MessageView>::empty());
    assert(seq![x, y] =~= seq![x] + seq![y]);
    lemma_sent_concat(seq![x], seq![y]);
    assert(sent(seq![x]) =~= match x {
        EffectView::Send(m) => seq![m],
        _ => Seq::<MessageView>::empty(),
    });
}

/// Taking in an allowed message keeps the potato's bookkeeping.
pub proof fn lemma_handled_keeps(
    pre: HandlerView,
    m: MessageView,
    post: HandlerView,
    out: Seq<EffectView>,
    keys: OurKeys,
)
    requires
        pre.valid(),
        allowed(pre, m),
        handled(pre, m, post, out, keys),
    ensures
        step_keeps(pre, post, seq![m], sent(out)),
{
    lemma_single(m);
    let msgs = sent(out);
    match pre.phase {
        Phase::StepB => {
            lemma_sent_literal(out[0], out[0]);
            assert(out =~= seq![out[0]]);
            let x = msgs[0];
            lemma_single(x);
            assert(msgs =~= seq![x]);
            assert(pre.log() =~= Seq::<Transition>::empty());
            assert(post.channel is Some);
            assert(post.log() =~= Seq::<Transition>::empty());
            assert(transitions(msgs) =~= Seq::<Transition>::empty());
            assert(pre.log() + transitions(seq![m]) + transitions(msgs) =~= pre.log());
            assert(post.have_potato == pre.have_potato);
            assert(potatoes(msgs) == 0);
            assert(potatoes(seq![m]) == 0);
            assert(post.log() == pre.log() + transitions(seq![m]) + transitions(msgs));
        },
        Phase::StepD => {
            lemma_sent_literal(out[0], out[0]);
            assert(out =~= seq![out[0]]);
            let x = msgs[0];
            lemma_single(x);
            assert(msgs =~= seq![x]);
            let theirs = m->Nil_0;
            let mid = with_event(pre, ChannelEvent::CheckedNil(theirs));
            lemma_log_with_event(pre, ChannelEvent::CheckedNil(theirs));
            lemma_log_with_event(mid, ChannelEvent::SentNil(x->Nil_0));
            assert(post.log() =~= pre.log() + seq![Transition::Nil, Transition::Nil]);
            assert(pre.log() + transitions(seq![m]) + transitions(msgs) =~= pre.log()
                + seq![Transition::Nil, Transition::Nil]);
        },
        Phase::StepC => {
            lemma_sent_literal(out[0], out[1]);
            assert(out =~= seq![out[0], out[1]]);
            lemma_sent_literal(out[1], out[1]);
            let x = msgs[0];
            lemma_single(x);
            assert(msgs =~= seq![x]);
            assert(pre.log() =~= Seq::<Transition>::empty());
            assert(post.log() == seq![Transition::Nil]);
            assert(pre.log() + transitions(seq![m]) + transitions(msgs) =~= seq![Transition::Nil]);
        },
        Phase::StepE => {
            lemma_log_with_event(pre, ChannelEvent::CheckedNil(m->Nil_0));
            assert(post.channel == with_event(pre, ChannelEvent::CheckedNil(m->Nil_0)).channel);
            assert(post.log() =~= pre.log() + seq![Transition::Nil]);
            match pre.channel_initiation_transaction {
                Some(b) => {
                    let e = EffectView::Send(MessageView::HandshakeE { bundle: b });
                    lemma_sent_literal(e, e);
                    lemma_single(MessageView::HandshakeE { bundle: b });
                    assert(pre.log() + transitions(seq![m]) + transitions(msgs) =~= pre.log()
                        + seq![Transition::Nil]);
                },
                None => {
                    assert(out =~= Seq::<EffectView>::empty());
                    assert(msgs == Seq::<MessageView>::empty());
                    assert(pre.log() + transitions(seq![m]) + transitions(msgs) =~= pre.log()
                        + seq![Transition::Nil]);
                },
            }
        },
        Phase::StepF => {
            let bundle = m->HandshakeE_bundle;
            let r = EffectView::ReceivedChannelOffer(bundle);
            lemma_sent_literal(r, r);
            match pre.channel_finished_transaction {
                Some(f) => {
                    let e = EffectView::Send(MessageView::HandshakeF { bundle: f });
                    lemma_sent_literal(r, e);
                    lemma_sent_literal(e, e);
                    lemma_single(MessageView::HandshakeF { bundle: f });
                    assert(msgs =~= seq![MessageView::HandshakeF { bundle: f }]);
                },
                None => {},
            }
            assert(pre.log() + transitions(seq![m]) + transitions(msgs) =~= pre.log());
        },
        Phase::Finished => {
            if m is RequestPotato {
                lemma_sent_literal(out[0], out[0]);
                assert(out =~= seq![out[0]]);
                let x = msgs[0];
                lemma_single(x);
                assert(msgs == seq![x]);
                lemma_log_with_event(pre, ChannelEvent::SentNil(x->Nil_0));
                assert(pre.log() + transitions(seq![m]) + transitions(msgs) =~= pre.log()
                    + seq![Transition::Nil]);
            } else {
                let mid = absorbed(pre, m);
                lemma_absorbed_log(pre, m);
                if m is Move || m is HandshakeF {
                    let rest = out.drop_first();
                    assert(out =~= seq![out[0]] + rest);
                    lemma_sent_concat(seq![out[0]], rest);
                    lemma_sent_literal(out[0], out[0]);
                    assert(msgs =~= sent(rest));
                    lemma_drained_keeps(mid, post, sent(rest));
                } else {
                    lemma_drained_keeps(mid, post, msgs);
                }
                assert(mid.log() + transitions(Seq::<MessageView>::empty()) + transitions(msgs)
                    =~= pre.log() + transitions(seq![m]) + transitions(msgs));
            }
        },
        _ => {},
    }
}

proof fn lemma_absorbed_log(pre: HandlerView, m: MessageView)
    requires
        pre.valid(),
        allowed(pre, m),
        pre.phase == Phase::Finished,
        !(m is RequestPotato),
    ensures
        absorbed(pre, m).log() == pre.log() + transitions(seq![m]),
        absorbed(pre, m).has_channel(),
{
    lemma_single(m);
    if m is HandshakeF {
        assert(pre.log() + transitions(seq![m]) =~= pre.log());
    } else {
        lemma_event_transition(m);
        lemma_log_with_event(pre, checked_event(m));
        assert(pre.log() + transitions(seq![m]) =~= pre.log().push(
            event_transition(checked_event(m)),
        ));
    }
}

/// A refusal after the message was taken in keeps the bookkeeping too.
pub proof fn lemma_absorbed_keeps(pre: HandlerView, m: MessageView)
    requires
        pre.valid(),
        allowed(pre, m),
        pre.phase == Phase::Finished,
        !(m is RequestPotato),
    ensures
        step_keeps(pre, absorbed(pre, m), seq![m], Seq::empty()),
{
    lemma_single(m);
    lemma_absorbed_log(pre, m);
    assert(transitions(Seq::<MessageView>::empty()) == Seq::<Transition>::empty());
    assert(pre.log() + transitions(seq![m]) + transitions(Seq::<MessageView>::empty()) =~= pre.log()
        + transitions(seq![m]));
}

/// Greeting the peer, and finishing the handshake when the wallet answers
/// (`start`, `channel_offer`, `channel_transaction_completion`), keep the
/// bookkeeping: a greeting carries no potato, and a finishing message carries
/// the one its sender held.
pub proof fn lemma_handshake_send_keeps(pre: HandlerView, post: HandlerView, m: MessageView)
    requires
        post.log() == pre.log(),
        m is HandshakeA ==> post.have_potato == pre.have_potato,
        (m is HandshakeE || m is HandshakeF) ==> pre.have_potato && !post.have_potato,
        m is HandshakeA || m is HandshakeE || m is HandshakeF,
    ensures
        step_keeps(pre, post, Seq::empty(), seq![m]),
{
    lemma_single(m);
    assert(potatoes(Seq::<MessageView>::empty()) == 0);
    assert(transitions(Seq::<MessageView>::empty()) == Seq::<Transition>::empty());
    assert(pre.log() + transitions(Seq::<MessageView>::empty()) + transitions(seq![m]) =~= pre.log());
}

/// Two peers and the messages on their way to each of them, oldest first.
pub struct PairView {
    pub alice: HandlerView,
    pub bob: HandlerView,
    pub to_alice: Seq<MessageView>,
    pub to_bob: Seq<MessageView>,
}

/// The potatoes in a pair: those held and those in flight.
pub open spec fn potato_count(s: PairView) -> int {
    s.alice.have_potato as int + s.bob.have_potato as int + potatoes(s.to_alice) + potatoes(
        s.to_bob,
    )
}

/// One peer's step: it takes the oldest message of its inbox or acts on its
/// own (a local intent, a wallet callback), keeping the bookkeeping, and what it
/// sends joins the peer's inbox; or it refuses its oldest message, sends
/// nothing and keeps or lacks the potato as before.
pub open spec fn peer_step(
    me: HandlerView,
    inbox: Seq<MessageView>,
    outbox: Seq<MessageView>,
    me2: HandlerView,
    inbox2: Seq<MessageView>,
    outbox2: Seq<MessageView>,
    clean: bool,
) -> bool {
    ||| exists|out: Seq<MessageView>|
        {
            &&& inbox.len() > 0
            &&& inbox2 == inbox.drop_first()
            &&& outbox2 == outbox + out
            &&& step_keeps(me, me2, seq![inbox[0]], out)
        }
    ||| exists|out: Seq<MessageView>|
        {
            &&& inbox2 == inbox
            &&& outbox2 == outbox + out
            &&& step_keeps(me, me2, Seq::empty(), out)
        }
    ||| {
        &&& !clean
        &&& inbox.len() > 0
        &&& inbox2 == inbox.drop_first()
        &&& outbox2 == outbox
        &&& me2.have_potato == me.have_potato
    }
}

/// A step of the pair: a step of either peer, the other standing still.
/// A clean step refuses no message.
pub open spec fn pair_step(s: PairView, t: PairView, clean: bool) -> bool {
    ||| (t.bob == s.bob && peer_step(s.alice, s.to_alice, s.to_bob, t.alice, t.to_alice, t.to_bob, clean))
    ||| (t.alice == s.alice && peer_step(s.bob, s.to_bob, s.to_alice, t.bob, t.to_bob, t.to_alice, clean))
}

/// A pair as it is made: alice holds the potato, nothing has been signed and
/// nothing is in flight.
pub open spec fn opening(s: PairView) -> bool {
    &&& s.alice.have_potato
    &&& !s.bob.have_potato
    &&& s.alice.log() == Seq::<Transition>::empty()
    &&& s.bob.log() == Seq::<Transition>::empty()
    &&& s.to_alice == Seq::<MessageView>::empty()
    &&& s.to_bob == Seq::<MessageView>::empty()
}

proof fn lemma_peer_step_count(
    me: HandlerView,
    inbox: Seq<MessageView>,
    outbox: Seq<MessageView>,
    me2: HandlerView,
    inbox2: Seq<MessageView>,
    outbox2: Seq<MessageView>,
    clean: bool,
)
    requires
        peer_step(me, inbox, outbox, me2, inbox2, outbox2, clean),
    ensures
        me2.have_potato as int + potatoes(inbox2) + potatoes(outbox2) <= me.have_potato as int
            + potatoes(inbox) + potatoes(outbox),
        clean ==> me2.have_potato as int + potatoes(inbox2) + potatoes(outbox2)
            == me.have_potato as int + potatoes(inbox) + potatoes(outbox),
{
    if inbox.len() > 0 {
        assert(inbox =~= seq![inbox[0]] + inbox.drop_first());
        lemma_potatoes_concat(seq![inbox[0]], inbox.drop_first());
    }
    if exists|out: Seq<MessageView>|
        {
            &&& inbox.len() > 0
            &&& inbox2 == inbox.drop_first()
            &&& outbox2 == outbox + out
            &&& step_keeps(me, me2, seq![inbox[0]], out)
        } {
        let out = choose|out: Seq<MessageView>|
            {
                &&& inbox.len() > 0
                &&& inbox2 == inbox.drop_first()
                &&& outbox2 == outbox + out
                &&& step_keeps(me, me2, seq![inbox[0]], out)
            };
        lemma_potatoes_concat(outbox, out);
    } else if exists|out: Seq<MessageView>|
        {
            &&& inbox2 == inbox
            &&& outbox2 == outbox + out
            &&& step_keeps(me, me2, Seq::empty(), out)
        } {
        let out = choose|out: Seq<MessageView>|
            {
                &&& inbox2 == inbox
                &&& outbox2 == outbox + out
                &&& step_keeps(me, me2, Seq::empty(), out)
            };
        lemma_potatoes_concat(outbox, out);
        assert(potatoes(Seq::<MessageView>::empty()) == 0);
    }
}

/// No step makes a potato, and a clean step loses none.
pub proof fn lemma_potato_conserved(s: PairView, t: PairView, clean: bool)
    requires
        pair_step(s, t, clean),
    ensures
        potato_count(t) <= potato_count(s),
        clean ==> potato_count(t) == potato_count(s),
{
    if t.bob == s.bob && peer_step(s.alice, s.to_alice, s.to_bob, t.alice, t.to_alice, t.to_bob, clean) {
        lemma_peer_step_count(s.alice, s.to_alice, s.to_bob, t.alice, t.to_alice, t.to_bob, clean);
    } else {
        lemma_peer_step_count(s.bob, s.to_bob, s.to_alice, t.bob, t.to_bob, t.to_alice, clean);
    }
}

/// The two peers never both hold the potato: along any run of steps from a
/// new pair, at most one holds it; along a run of clean steps, exactly one
/// holds it whenever nothing is in flight.
pub proof fn lemma_potato_exclusive(run: Seq<PairView>, clean: bool)
    requires
        run.len() > 0,
        opening(run[0]),
        forall|i: int| 0 <= i < run.len() - 1 ==> pair_step(#[trigger] run[i], run[i + 1], clean),
    ensures
        forall|i: int|
            0 <= i < run.len() ==> #[trigger] run[i].alice.have_potato as int
                + run[i].bob.have_potato as int <= 1,
        clean ==> forall|i: int|
            0 <= i < run.len() && run[i].to_alice.len() == 0 && run[i].to_bob.len() == 0
                ==> #[trigger] run[i].alice.have_potato as int + run[i].bob.have_potato as int
                == 1,
    decreases run.len(),
{
    assert(potatoes(Seq::<MessageView>::empty()) == 0);
    if run.len() > 1 {
        let prefix = run.drop_last();
        assert forall|i: int| 0 <= i < prefix.len() - 1 implies pair_step(
            #[trigger] prefix[i],
            prefix[i + 1],
            clean,
        ) by {
            assert(prefix[i] == run[i] && prefix[i + 1] == run[i + 1]);
        }
        lemma_potato_exclusive(prefix, clean);
    }
    lemma_potato_count_along(run, clean, (run.len() - 1) as int);
    assert forall|i: int| 0 <= i < run.len() implies #[trigger] run[i].alice.have_potato as int
        + run[i].bob.have_potato as int <= 1 by {
        lemma_potato_count_along(run, clean, i);
        lemma_potatoes_nonneg(run[i].to_alice);
        lemma_potatoes_nonneg(run[i].to_bob);
    }
    if clean {
        assert forall|i: int|
            0 <= i < run.len() && run[i].to_alice.len() == 0 && run[i].to_bob.len()
                == 0 implies #[trigger] run[i].alice.have_potato as int
            + run[i].bob.have_potato as int == 1 by {
            lemma_potato_count_along(run, clean, i);
            assert(run[i].to_alice =~= Seq::<MessageView>::empty());
            assert(run[i].to_bob =~= Seq::<MessageView>::empty());
        }
    }
}

proof fn lemma_potatoes_nonneg(ms: Seq<MessageView>)
    ensures
        potatoes(ms) >= 0,
{
}

proof fn lemma_potato_count_along(run: Seq<PairView>, clean: bool, i: int)
    requires
        0 <= i < run.len(),
        opening(run[0]),
        forall|j: int| 0 <= j < run.len() - 1 ==> pair_step(#[trigger] run[j], run[j + 1], clean),
    ensures
        potato_count(run[i]) <= 1,
        clean ==> potato_count(run[i]) == 1,
    decreases i,
{
    if i == 0 {
        assert(potatoes(Seq::<MessageView>::empty()) == 0);
    } else {
        lemma_potato_count_along(run, clean, i - 1);
        lemma_potato_conserved(run[i - 1], run[i], clean);
    }
}

/// The two logs agree once each is extended by the transitions on their way
/// to that peer.
pub open spec fn logs_agree(s: PairView) -> bool {
    s.alice.log() + transitions(s.to_alice) == s.bob.log() + transitions(s.to_bob)
}

proof fn lemma_empty_transitions(ms: Seq<MessageView>)
    requires
        potatoes(ms) == 0,
    ensures
        transitions(ms) == Seq::<Transition>::empty(),
{
    lemma_transitions_need_potatoes(ms);
}

proof fn lemma_peer_step_logs(
    me: HandlerView,
    inbox: Seq<MessageView>,
    outbox: Seq<MessageView>,
    me2: HandlerView,
    inbox2: Seq<MessageView>,
    outbox2: Seq<MessageView>,
    other_log: Seq<Transition>,
    other_have: bool,
)
    requires
        peer_step(me, inbox, outbox, me2, inbox2, outbox2, true),
        me.log() + transitions(inbox) == other_log + transitions(outbox),
        me.have_potato as int + other_have as int + potatoes(inbox) + potatoes(outbox) == 1,
    ensures
        me2.log() + transitions(inbox2) == other_log + transitions(outbox2),
{
    if exists|out: Seq<MessageView>|
        {
            &&& inbox.len() > 0
            &&& inbox2 == inbox.drop_first()
            &&& outbox2 == outbox + out
            &&& step_keeps(me, me2, seq![inbox[0]], out)
        } {
        let out = choose|out: Seq<MessageView>|
            {
                &&& inbox.len() > 0
                &&& inbox2 == inbox.drop_first()
                &&& outbox2 == outbox + out
                &&& step_keeps(me, me2, seq![inbox[0]], out)
            };
        let m = inbox[0];
        let rest = inbox.drop_first();
        assert(inbox =~= seq![m] + rest);
        lemma_transitions_concat(seq![m], rest);
        lemma_potatoes_concat(seq![m], rest);
        lemma_transitions_concat(outbox, out);
        if potatoes(out) == 0 {
            lemma_empty_transitions(out);
        } else {
            lemma_empty_transitions(rest);
        }
        assert(me2.log() + transitions(inbox2) =~= other_log + transitions(outbox2));
    } else {
        let out = choose|out: Seq<MessageView>|
            {
                &&& inbox2 == inbox
                &&& outbox2 == outbox + out
                &&& step_keeps(me, me2, Seq::empty(), out)
            };
        assert(potatoes(Seq::<MessageView>::empty()) == 0);
        assert(transitions(Seq::<MessageView>::empty()) == Seq::<Transition>::empty());
        lemma_transitions_concat(outbox, out);
        if potatoes(out) == 0 {
            lemma_empty_transitions(out);
            assert(me2.log() + transitions(inbox2) =~= other_log + transitions(outbox2));
        } else {
            lemma_empty_transitions(inbox);
            lemma_empty_transitions(outbox);
            assert(me.log() =~= me.log() + transitions(inbox));
            assert(other_log =~= other_log + transitions(outbox));
            assert(me2.log() + transitions(inbox2) =~= other_log + transitions(outbox2));
        }
    }
}

/// A clean step keeps the logs in agreement.
pub proof fn lemma_logs_agree_step(s: PairView, t: PairView)
    requires
        pair_step(s, t, true),
        potato_count(s) == 1,
        logs_agree(s),
    ensures
        logs_agree(t),
{
    if t.bob == s.bob && peer_step(s.alice, s.to_alice, s.to_bob, t.alice, t.to_alice, t.to_bob, true) {
        lemma_peer_step_logs(
            s.alice,
            s.to_alice,
            s.to_bob,
            t.alice,
            t.to_alice,
            t.to_bob,
            s.bob.log(),
            s.bob.have_potato,
        );
    } else {
        lemma_peer_step_logs(
            s.bob,
            s.to_bob,
            s.to_alice,
            t.bob,
            t.to_bob,
            t.to_alice,
            s.alice.log(),
            s.alice.have_potato,
        );
    }
}

proof fn lemma_logs_agree_along(run: Seq<PairView>, i: int)
    requires
        0 <= i < run.len(),
        opening(run[0]),
        forall|j: int| 0 <= j < run.len() - 1 ==> pair_step(#[trigger] run[j], run[j + 1], true),
    ensures
        logs_agree(run[i]),
    decreases i,
{
    if i == 0 {
        assert(transitions(Seq::<MessageView>::empty()) == Seq::<Transition>::empty());
        assert(run[0].alice.log() + transitions(run[0].to_alice) =~= Seq::<Transition>::empty());
        assert(run[0].bob.log() + transitions(run[0].to_bob) =~= Seq::<Transition>::empty());
    } else {
        lemma_logs_agree_along(run, i - 1);
        lemma_potato_count_along(run, true, i - 1);
        lemma_logs_agree_step(run[i - 1], run[i]);
    }
}

/// Both channel handlers sign and check the same transitions in the same
/// order: along any run of clean steps from a new pair, whenever nothing is in
/// flight (as when both peers have finished the handshake and are quiet), the
/// two logs are equal.
pub proof fn lemma_same_transitions(run: Seq<PairView>)
    requires
        run.len() > 0,
        opening(run[0]),
        forall|i: int| 0 <= i < run.len() - 1 ==> pair_step(#[trigger] run[i], run[i + 1], true),
    ensures
        forall|i: int|
            0 <= i < run.len() && run[i].to_alice.len() == 0 && run[i].to_bob.len() == 0
                ==> #[trigger] run[i].alice.log() == run[i].bob.log(),
{
    assert forall|i: int|
        0 <= i < run.len() && run[i].to_alice.len() == 0 && run[i].to_bob.len()
            == 0 implies #[trigger] run[i].alice.log() == run[i].bob.log() by {
        lemma_logs_agree_along(run, i);
        assert(run[i].to_alice =~= Seq::<MessageView>::empty());
        assert(run[i].to_bob =~= Seq::<MessageView>::empty());
        assert(transitions(Seq::<MessageView>::empty()) == Seq::<Transition>::empty());
        assert(run[i].alice.log() =~= run[i].alice.log() + transitions(run[i].to_alice));
        assert(run[i].bob.log() =~= run[i].bob.log() + transitions(run[i].to_bob));
    }
}

} // verus!
