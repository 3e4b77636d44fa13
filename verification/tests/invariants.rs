use browseraft::{Effect, Event, Message, MessageWrapper, Node, Peer, Recipient, Role};
use std::collections::HashSet;

fn ids(members: &[u32]) -> HashSet<u32> {
    members.iter().copied().collect()
}

fn fresh(id: u32) -> Node<String> {
    Node::<String>::builder()
        .id(id)
        .election_timeout(200)
        .heartbeat_timeout(50)
        .build_with(0, 0)
        .0
}

/// A source of numbers that gives the same numbers on every run.
struct Dice(u64);

impl Dice {
    fn roll(&mut self, sides: u32) -> u32 {
        self.0 = self.0.wrapping_mul(6364136223846793005).wrapping_add(1442695040888963407);
        ((self.0 >> 33) % sides as u64) as u32
    }
}

fn some_message(dice: &mut Dice) -> Message<String> {
    let peer = |dice: &mut Dice| Peer::new(1 + dice.roll(5));
    match dice.roll(7) {
        0 => Message::PeerAdded,
        1 => Message::PeerRemoved,
        2 => {
            let mut set = HashSet::new();
            for _ in 0..dice.roll(5) {
                set.insert(1 + dice.roll(5));
            }
            Message::PeerSet(set)
        }
        3 => Message::VoteRequest { term: dice.roll(6), candidate: peer(dice) },
        4 => Message::VoteResponse {
            term: dice.roll(6),
            candidate: peer(dice),
            follower: peer(dice),
        },
        5 => Message::Heartbeat { term: dice.roll(6) },
        _ => Message::Payload("value".to_string()),
    }
}

fn some_event(dice: &mut Dice) -> Event<String> {
    match dice.roll(12) {
        0 | 1 => Event::ElectionTimeout,
        2 => Event::HeartbeatTimeout,
        3 => Event::Issue("value".to_string()),
        4 => {
            if dice.roll(20) == 0 {
                Event::Stop
            } else {
                Event::HeartbeatTimeout
            }
        }
        _ => {
            let to = if dice.roll(2) == 0 {
                Recipient::Everyone
            } else {
                Recipient::Peer(Peer::new(1 + dice.roll(5)))
            };
            Event::Delivery(MessageWrapper {
                from: Peer::new(1 + dice.roll(5)),
                to,
                msg: some_message(dice),
            })
        }
    }
}

fn timers_follow_role(node: &Node<String>) -> bool {
    !node.state.listening
        || (node.state.election_task.is_some() == (node.role() != Role::Leader)
            && node.state.heartbeat_task.is_some() == (node.role() == Role::Leader))
}

fn votes_within_peers(node: &Node<String>) -> bool {
    node.state.votes.is_subset(&node.state.peers)
}

fn taken_up(node: &Node<String>, envelope: &MessageWrapper<String>) -> bool {
    node.state.listening
        && envelope.from != node.peer()
        && (envelope.to == Recipient::Everyone || envelope.to == Recipient::Peer(node.peer()))
}

fn leader_hears_vote_request(node: &Node<String>, event: &Event<String>) -> bool {
    match event {
        Event::Delivery(envelope) if taken_up(node, envelope) => match envelope.msg {
            Message::VoteRequest { term, candidate } => {
                node.role() == Role::Leader && candidate != node.peer() && term >= node.term()
            }
            _ => false,
        },
        _ => false,
    }
}

fn strays_from_peers(node: &Node<String>, event: &Event<String>) -> bool {
    match event {
        Event::Delivery(envelope) if taken_up(node, envelope) => match &envelope.msg {
            Message::PeerRemoved => node.state.votes.contains(&envelope.from.id()),
            Message::PeerSet(peers) => {
                node.state.votes.iter().any(|vote| *vote != node.id && !peers.contains(vote))
            }
            Message::VoteResponse { term, candidate, follower } => {
                let mut counted = node.state.votes.clone();
                counted.insert(follower.id());
                *candidate == node.peer()
                    && node.role() == Role::Candidate
                    && *term >= node.term()
                    && !node.state.peers.contains(&follower.id())
                    && counted.len() <= node.state.peers.len() / 2
            }
            _ => false,
        },
        _ => false,
    }
}

fn grants(effects: &[Effect<String>]) -> Option<(u32, Peer)> {
    for effect in effects {
        if let Effect::Send(envelope) = effect {
            match envelope.msg {
                Message::VoteResponse { term, candidate, .. } => return Some((term, candidate)),
                Message::VoteRequest { term, candidate } => return Some((term, candidate)),
                _ => {}
            }
        }
    }
    None
}

fn gives_up_candidacy(node: &Node<String>, event: &Event<String>) -> bool {
    match event {
        Event::Delivery(envelope) if taken_up(node, envelope) => match envelope.msg {
            Message::Heartbeat { term } => node.role() == Role::Candidate && term >= node.term(),
            _ => false,
        },
        _ => false,
    }
}

#[test]
fn laws_hold_along_many_runs() {
    for seed in 0..300u64 {
        let mut dice = Dice(seed);
        let mut node = fresh(1 + dice.roll(5));
        let mut last_vote: Option<u32> = None;
        for _ in 0..120 {
            let event = some_event(&mut dice);
            let term_before = node.term();
            let timers_before = timers_follow_role(&node);
            let votes_before = votes_within_peers(&node);
            let breaks_timers = leader_hears_vote_request(&node, &event);
            let breaks_votes = strays_from_peers(&node, &event);
            let gives_up = gives_up_candidacy(&node, &event);
            let stopped_before = !node.state.listening;
            let role_before = node.role();
            let peers_before = node.peers();

            let effects = node.handle(event);

            assert!(node.term() >= term_before);
            assert!(node.state.peers.contains(&node.id));
            if timers_before {
                assert_eq!(timers_follow_role(&node), !breaks_timers);
            }
            if votes_before {
                assert_eq!(votes_within_peers(&node), !breaks_votes);
                if !breaks_votes {
                    assert!(node.state.votes.len() <= node.state.peers.len());
                }
            }
            if gives_up {
                last_vote = None;
            }
            if let Some((term, _)) = grants(&effects) {
                if let Some(earlier) = last_vote {
                    assert!(term > earlier);
                }
                last_vote = Some(term);
            }
            let notices: Vec<&Effect<String>> =
                effects.iter().filter(|effect| matches!(effect, Effect::RoleChange(_))).collect();
            if node.role() != role_before {
                assert_eq!(notices, vec![&Effect::RoleChange(node.role())]);
            } else {
                assert!(notices.is_empty());
            }
            if stopped_before {
                assert_eq!(node.term(), term_before);
                assert_eq!(node.role(), role_before);
                assert_eq!(node.peers(), peers_before);
                assert!(effects.iter().all(|effect| matches!(effect, Effect::Send(_))));
            }
        }
    }
}

#[test]
fn term_never_falls() {
    let mut node = fresh(1);
    node.add_peer(Peer::new(2));
    node.add_peer(Peer::new(3));
    let mut terms = vec![node.term()];
    node.receive_heartbeat(4, &Peer::new(2));
    terms.push(node.term());
    node.receive_heartbeat(2, &Peer::new(2));
    terms.push(node.term());
    node.receive_vote_request(3, Peer::new(3));
    terms.push(node.term());
    node.start_election();
    terms.push(node.term());
    node.receive_vote_request(9, Peer::new(3));
    terms.push(node.term());
    node.receive_heartbeat(1, &Peer::new(2));
    terms.push(node.term());
    node.stop();
    terms.push(node.term());
    assert_eq!(terms, vec![0, 4, 4, 4, 5, 9, 9, 9]);
}

#[test]
fn one_vote_in_a_term() {
    let mut node = fresh(2);
    node.add_peer(Peer::new(1));
    node.add_peer(Peer::new(3));
    assert!(grants(&node.receive_vote_request(1, Peer::new(1))).is_some());
    assert!(grants(&node.receive_vote_request(1, Peer::new(3))).is_none());
    assert!(grants(&node.receive_heartbeat(1, &Peer::new(1))).is_none());
    assert!(grants(&node.receive_vote_request(1, Peer::new(3))).is_none());
    assert_eq!(grants(&node.start_election()), Some((2, Peer::new(2))));
    assert!(grants(&node.receive_vote_request(2, Peer::new(3))).is_none());
    assert_eq!(grants(&node.receive_vote_request(3, Peer::new(3))), None);
    assert_eq!(node.term(), 3);
}

#[test]
fn a_candidate_that_gave_up_votes_again_in_its_term() {
    let mut node = fresh(2);
    node.add_peer(Peer::new(1));
    node.add_peer(Peer::new(3));
    assert_eq!(grants(&node.start_election()), Some((1, Peer::new(2))));
    node.receive_heartbeat(1, &Peer::new(1));
    assert_eq!(node.role(), Role::Follower);
    assert_eq!(grants(&node.receive_vote_request(1, Peer::new(3))), Some((1, Peer::new(3))));
}

#[test]
fn the_node_stays_among_its_peers() {
    let mut node = fresh(1);
    node.on_message(MessageWrapper {
        from: Peer::new(1),
        to: Recipient::Everyone,
        msg: Message::PeerRemoved,
    });
    assert_eq!(node.peers(), ids(&[1]));
    node.on_message(MessageWrapper {
        from: Peer::new(2),
        to: Recipient::Everyone,
        msg: Message::PeerSet(ids(&[2, 3])),
    });
    assert_eq!(node.peers(), ids(&[1, 2, 3]));
    node.on_message(MessageWrapper {
        from: Peer::new(2),
        to: Recipient::Everyone,
        msg: Message::PeerRemoved,
    });
    assert_eq!(node.peers(), ids(&[1, 3]));
}

#[test]
fn a_stranger_s_vote_strays_from_the_peers() {
    let mut node = fresh(1);
    for other in [2u32, 3, 4, 5] {
        node.add_peer(Peer::new(other));
    }
    node.start_election();
    assert!(votes_within_peers(&node));
    node.receive_vote(1, Peer::new(9));
    assert_eq!(node.state.votes, ids(&[1, 9]));
    assert!(!votes_within_peers(&node));
}

#[test]
fn a_voter_that_leaves_stays_in_the_tally() {
    let mut node = fresh(1);
    for other in [2u32, 3, 4, 5] {
        node.add_peer(Peer::new(other));
    }
    node.start_election();
    node.receive_vote(1, Peer::new(2));
    node.remove_peer(Peer::new(2));
    assert_eq!(node.state.votes, ids(&[1, 2]));
    assert_eq!(node.peers(), ids(&[1, 3, 4, 5]));
}

#[test]
fn stop_twice_is_stop_once() {
    let mut once = fresh(1);
    once.add_peer(Peer::new(2));
    let first = once.stop();
    assert_eq!(first, vec![Effect::ElectionTimer(None), Effect::Unlisten]);
    let role = once.role();
    let term = once.term();
    let peers = once.peers();
    let second = once.stop();
    assert_eq!(second, vec![]);
    assert_eq!(once.role(), role);
    assert_eq!(once.term(), term);
    assert_eq!(once.peers(), peers);
    assert_eq!(once.state.election_task, None);
    assert_eq!(once.state.heartbeat_task, None);
    assert!(!once.state.listening);
}

#[test]
fn a_stopped_node_is_inert() {
    let mut node = fresh(1);
    node.add_peer(Peer::new(2));
    node.add_peer(Peer::new(3));
    node.stop();
    assert_eq!(node.handle(Event::ElectionTimeout), vec![]);
    assert_eq!(node.handle(Event::HeartbeatTimeout), vec![]);
    assert_eq!(
        node.handle(Event::Delivery(MessageWrapper {
            from: Peer::new(2),
            to: Recipient::Everyone,
            msg: Message::Heartbeat { term: 8 },
        })),
        vec![]
    );
    assert_eq!(
        node.handle(Event::Delivery(MessageWrapper {
            from: Peer::new(2),
            to: Recipient::Everyone,
            msg: Message::Payload("late".to_string()),
        })),
        vec![]
    );
    assert_eq!(node.handle(Event::Issue("late".to_string())), vec![]);
    assert_eq!(node.term(), 0);
    assert_eq!(node.role(), Role::Follower);
    assert_eq!(node.peers(), ids(&[1, 2, 3]));
}

#[test]
fn two_majorities_share_a_peer() {
    let peers: Vec<u32> = vec![1, 2, 3, 4, 5];
    for first in 0u32..32 {
        for second in 0u32..32 {
            let pick = |mask: u32| -> HashSet<u32> {
                peers.iter().copied().filter(|peer| mask & (1 << (peer - 1)) != 0).collect()
            };
            let (a, b) = (pick(first), pick(second));
            if a.len() > peers.len() / 2 && b.len() > peers.len() / 2 {
                assert!(a.intersection(&b).next().is_some());
            }
        }
    }
}

#[test]
fn a_leader_that_adopts_a_term_shares_it_with_the_winner() {
    let mut a = fresh(1);
    let mut b = fresh(2);
    let mut c = fresh(3);
    for node in [&mut a, &mut b, &mut c] {
        node.reconcile_peers(ids(&[1, 2, 3]));
    }
    a.start_election();
    a.receive_vote(1, Peer::new(3));
    assert_eq!((a.role(), a.term()), (Role::Leader, 1));
    b.receive_vote_request(1, Peer::new(1));
    c.receive_vote_request(1, Peer::new(1));
    b.start_election();
    assert_eq!((b.role(), b.term()), (Role::Candidate, 2));
    a.receive_vote_request(2, Peer::new(2));
    let granted = c.receive_vote_request(2, Peer::new(2));
    assert_eq!(grants(&granted), Some((2, Peer::new(2))));
    b.receive_vote(2, Peer::new(3));
    assert_eq!((b.role(), b.term()), (Role::Leader, 2));
    assert_eq!((a.role(), a.term()), (Role::Leader, 2));
}

#[test]
fn two_nodes_that_know_only_themselves_both_lead() {
    let mut a = fresh(1);
    let mut b = fresh(2);
    a.start_election();
    b.start_election();
    assert_eq!((a.role(), a.term()), (Role::Leader, 0));
    assert_eq!((b.role(), b.term()), (Role::Leader, 0));
}
