use browseraft::{
    Effect, Event, Message, MessageWrapper, Node, Peer, Recipient, Role, Timer,
};
use std::collections::HashSet;

fn ids(members: &[u32]) -> HashSet<u32> {
    members.iter().copied().collect()
}

fn fresh(id: u32) -> Node<String> {
    Node::<String>::builder()
        .id(id)
        .election_timeout(200)
        .heartbeat_timeout(50)
        .channel("room")
        .build_with(0, 0)
        .0
}

fn with_peers(id: u32, others: &[u32]) -> Node<String> {
    let mut node = fresh(id);
    for other in others {
        let effects = node.add_peer(Peer::new(*other));
        assert_eq!(effects, vec![]);
    }
    node
}

fn candidate(id: u32, others: &[u32]) -> Node<String> {
    let mut node = with_peers(id, others);
    node.start_election();
    assert_eq!(node.role(), Role::Candidate);
    node
}

fn leader(id: u32, others: &[u32]) -> Node<String> {
    let mut node = with_peers(id, others);
    node.win_election();
    assert_eq!(node.role(), Role::Leader);
    node
}

fn broadcast(from: u32, msg: Message<String>) -> MessageWrapper<String> {
    MessageWrapper { from: Peer::new(from), to: Recipient::Everyone, msg }
}

fn sent(from: u32, to: Recipient, msg: Message<String>) -> Effect<String> {
    Effect::Send(MessageWrapper { from: Peer::new(from), to, msg })
}

const ELECTION: Option<Timer> = Some(Timer { delay_ms: 200 });
const HEARTBEAT: Option<Timer> = Some(Timer { delay_ms: 50 });

#[test]
fn peer_and_is() {
    let node = fresh(7);
    assert_eq!(node.peer(), Peer::new(7));
    assert!(node.is(&Peer::new(7)));
    assert!(!node.is(&Peer::new(8)));
}

#[test]
fn send_addresses_the_envelope() {
    let node = fresh(7);
    let envelope = node.send(Message::Heartbeat { term: 3 }, Recipient::Peer(Peer::new(9)));
    assert_eq!(
        envelope,
        MessageWrapper {
            from: Peer::new(7),
            to: Recipient::Peer(Peer::new(9)),
            msg: Message::Heartbeat { term: 3 },
        }
    );
}

#[test]
fn timers_carry_the_configured_delays() {
    let node = fresh(7);
    assert_eq!(node.new_election_task(), Timer { delay_ms: 200 });
    assert_eq!(node.new_heartbeat_task(), Timer { delay_ms: 50 });
}

#[test]
fn replace_tasks_hand_back_the_previous() {
    let mut node = fresh(7);
    let previous = node.state.replace_election_task(Some(Timer { delay_ms: 10 }));
    assert_eq!(previous, ELECTION);
    assert_eq!(node.state.election_task, Some(Timer { delay_ms: 10 }));
    let previous = node.state.replace_election_task(None);
    assert_eq!(previous, Some(Timer { delay_ms: 10 }));
    assert_eq!(node.state.election_task, None);
    assert_eq!(node.state.replace_election_task(None), None);
    assert_eq!(node.state.replace_heartbeat_task(HEARTBEAT), None);
    assert_eq!(node.state.replace_heartbeat_task(None), HEARTBEAT);
    assert_eq!(node.state.heartbeat_task, None);
    assert_eq!(node.state.role, Role::Follower);
    assert_eq!(node.state.peers, ids(&[7]));
}

#[test]
fn follower_adds_peer_silently() {
    let mut node = fresh(1);
    let effects = node.add_peer(Peer::new(2));
    assert_eq!(effects, vec![]);
    assert_eq!(node.peers(), ids(&[1, 2]));
    let effects = node.add_peer(Peer::new(2));
    assert_eq!(effects, vec![]);
    assert_eq!(node.peers(), ids(&[1, 2]));
}

#[test]
fn leader_answers_a_new_peer_with_the_peer_set() {
    let mut node = leader(1, &[2]);
    let effects = node.add_peer(Peer::new(3));
    assert_eq!(node.peers(), ids(&[1, 2, 3]));
    assert_eq!(effects, vec![sent(1, Recipient::Everyone, Message::PeerSet(ids(&[1, 2, 3])))]);
}

#[test]
fn remove_peer_forgets_the_peer() {
    let mut node = with_peers(1, &[2, 3]);
    node.remove_peer(Peer::new(2));
    assert_eq!(node.peers(), ids(&[1, 3]));
    node.remove_peer(Peer::new(9));
    assert_eq!(node.peers(), ids(&[1, 3]));
}

#[test]
fn reconcile_replaces_the_peer_set() {
    let mut node = with_peers(1, &[2, 3]);
    node.reconcile_peers(ids(&[1, 4, 5]));
    assert_eq!(node.peers(), ids(&[1, 4, 5]));
}

#[test]
fn reconcile_keeps_the_node_in_its_own_set() {
    let mut node = with_peers(1, &[2, 3]);
    node.reconcile_peers(ids(&[4, 5]));
    assert_eq!(node.peers(), ids(&[1, 4, 5]));
    node.reconcile_peers(ids(&[]));
    assert_eq!(node.peers(), ids(&[1]));
}

#[test]
fn sole_node_wins_at_timeout() {
    let mut node = fresh(1);
    let effects = node.start_election();
    assert_eq!(node.role(), Role::Leader);
    assert_eq!(node.term(), 0);
    assert_eq!(node.state.election_task, None);
    assert_eq!(node.state.heartbeat_task, HEARTBEAT);
    assert_eq!(
        effects,
        vec![
            Effect::ElectionTimer(None),
            sent(1, Recipient::Everyone, Message::Heartbeat { term: 0 }),
            Effect::HeartbeatTimer(HEARTBEAT),
            Effect::RoleChange(Role::Leader),
        ]
    );
}

#[test]
fn lower_of_two_wins_at_timeout() {
    let mut node = with_peers(1, &[2]);
    let effects = node.start_election();
    assert_eq!(node.role(), Role::Leader);
    assert_eq!(node.term(), 0);
    assert_eq!(
        effects,
        vec![
            Effect::ElectionTimer(None),
            sent(1, Recipient::Everyone, Message::Heartbeat { term: 0 }),
            Effect::HeartbeatTimer(HEARTBEAT),
            Effect::RoleChange(Role::Leader),
        ]
    );
}

#[test]
fn higher_of_two_waits_on() {
    let mut node = with_peers(2, &[1]);
    assert!(!node.is_lowest());
    let effects = node.start_election();
    assert_eq!(node.role(), Role::Follower);
    assert_eq!(node.term(), 0);
    assert_eq!(node.state.election_task, ELECTION);
    assert_eq!(effects, vec![Effect::ElectionTimer(ELECTION)]);
}

#[test]
fn lowest_is_by_identifier() {
    assert!(fresh(5).is_lowest());
    assert!(with_peers(5, &[6, 7]).is_lowest());
    assert!(!with_peers(5, &[6, 4]).is_lowest());
    assert!(with_peers(0, &[u32::MAX]).is_lowest());
    let mut node = with_peers(5, &[6]);
    node.remove_peer(Peer::new(5));
    assert!(!node.is_lowest());
}

#[test]
fn one_of_three_stands_for_election() {
    let mut node = with_peers(10, &[20, 30]);
    let effects = node.start_election();
    assert_eq!(node.role(), Role::Candidate);
    assert_eq!(node.term(), 1);
    assert_eq!(node.state.voted_for, Some(Peer::new(10)));
    assert_eq!(node.state.votes, ids(&[10]));
    assert_eq!(node.state.election_task, ELECTION);
    assert_eq!(
        effects,
        vec![
            Effect::ElectionTimer(ELECTION),
            sent(
                10,
                Recipient::Everyone,
                Message::VoteRequest { term: 1, candidate: Peer::new(10) },
            ),
            Effect::RoleChange(Role::Candidate),
        ]
    );
}

#[test]
fn a_candidate_that_times_out_starts_over() {
    let mut node = candidate(10, &[20, 30, 40, 50]);
    assert_eq!(node.receive_vote(1, Peer::new(20)), vec![]);
    assert_eq!(node.state.votes, ids(&[10, 20]));
    let effects = node.start_election();
    assert_eq!(node.role(), Role::Candidate);
    assert_eq!(node.term(), 2);
    assert_eq!(node.state.votes, ids(&[10]));
    assert_eq!(node.state.voted_for, Some(Peer::new(10)));
    assert_eq!(
        effects,
        vec![
            Effect::ElectionTimer(ELECTION),
            sent(
                10,
                Recipient::Everyone,
                Message::VoteRequest { term: 2, candidate: Peer::new(10) },
            ),
        ]
    );
}

#[test]
fn a_node_that_knows_nobody_stands_for_election() {
    let mut node = fresh(1);
    node.remove_peer(Peer::new(1));
    let effects = node.start_election();
    assert_eq!(node.role(), Role::Candidate);
    assert_eq!(node.term(), 1);
    assert_eq!(effects.len(), 3);
}

#[test]
fn a_cancelled_election_timer_changes_nothing() {
    let mut node = leader(1, &[]);
    assert_eq!(node.state.election_task, None);
    let effects = node.on_election_timeout();
    assert_eq!(effects, vec![]);
    assert_eq!(node.role(), Role::Leader);
    assert_eq!(node.term(), 0);
}

#[test]
fn an_armed_election_timer_starts_the_election() {
    let mut node = fresh(1);
    let effects = node.on_election_timeout();
    assert_eq!(node.role(), Role::Leader);
    assert_eq!(effects.len(), 4);
}

#[test]
fn votes_of_a_majority_win_the_election() {
    let mut node = candidate(10, &[20, 30, 40, 50]);
    assert_eq!(node.receive_vote(1, Peer::new(20)), vec![]);
    assert_eq!(node.role(), Role::Candidate);
    assert_eq!(node.state.votes, ids(&[10, 20]));
    let effects = node.receive_vote(1, Peer::new(30));
    assert_eq!(node.role(), Role::Leader);
    assert_eq!(node.term(), 1);
    assert_eq!(node.state.voted_for, None);
    assert!(node.state.votes.is_empty());
    assert_eq!(node.state.election_task, None);
    assert_eq!(node.state.heartbeat_task, HEARTBEAT);
    assert_eq!(
        effects,
        vec![
            Effect::ElectionTimer(None),
            sent(10, Recipient::Everyone, Message::Heartbeat { term: 1 }),
            Effect::HeartbeatTimer(HEARTBEAT),
            Effect::RoleChange(Role::Leader),
        ]
    );
}

#[test]
fn the_same_vote_counts_once() {
    let mut node = candidate(10, &[20, 30, 40, 50]);
    assert_eq!(node.receive_vote(1, Peer::new(20)), vec![]);
    assert_eq!(node.receive_vote(1, Peer::new(20)), vec![]);
    assert_eq!(node.role(), Role::Candidate);
    assert_eq!(node.state.votes, ids(&[10, 20]));
}

#[test]
fn half_of_the_peers_is_no_majority() {
    let mut node = candidate(10, &[20, 30, 40]);
    assert_eq!(node.receive_vote(1, Peer::new(20)), vec![]);
    assert_eq!(node.role(), Role::Candidate);
    let effects = node.receive_vote(1, Peer::new(30));
    assert_eq!(node.role(), Role::Leader);
    assert_eq!(effects.len(), 4);
}

#[test]
fn a_vote_of_an_earlier_term_is_ignored() {
    let mut node = candidate(10, &[20, 30]);
    assert_eq!(node.start_election().len(), 2);
    assert_eq!(node.term(), 2);
    assert_eq!(node.receive_vote(1, Peer::new(20)), vec![]);
    assert_eq!(node.role(), Role::Candidate);
    assert_eq!(node.state.votes, ids(&[10]));
}

#[test]
fn a_vote_of_a_later_term_is_counted() {
    let mut node = candidate(10, &[20, 30]);
    let effects = node.receive_vote(5, Peer::new(20));
    assert_eq!(node.role(), Role::Leader);
    assert_eq!(node.term(), 1);
    assert_eq!(effects.len(), 4);
}

#[test]
fn only_a_candidate_counts_votes() {
    let mut node = with_peers(10, &[20, 30]);
    assert_eq!(node.receive_vote(0, Peer::new(20)), vec![]);
    assert_eq!(node.role(), Role::Follower);
    assert!(node.state.votes.is_empty());
    let mut node = leader(10, &[20, 30]);
    assert_eq!(node.receive_vote(0, Peer::new(20)), vec![]);
    assert!(node.state.votes.is_empty());
}

#[test]
fn winning_again_tells_the_user_nothing() {
    let mut node = leader(1, &[]);
    let effects = node.win_election();
    assert_eq!(
        effects,
        vec![
            sent(1, Recipient::Everyone, Message::Heartbeat { term: 0 }),
            Effect::HeartbeatTimer(HEARTBEAT),
        ]
    );
}

#[test]
fn follower_grants_its_vote() {
    let mut node = with_peers(20, &[10, 30]);
    let effects = node.receive_vote_request(1, Peer::new(10));
    assert_eq!(node.role(), Role::Follower);
    assert_eq!(node.term(), 1);
    assert_eq!(node.state.voted_for, Some(Peer::new(10)));
    assert_eq!(
        effects,
        vec![
            sent(
                20,
                Recipient::Peer(Peer::new(10)),
                Message::VoteResponse {
                    term: 1,
                    candidate: Peer::new(10),
                    follower: Peer::new(20),
                },
            ),
            Effect::ElectionTimer(ELECTION),
        ]
    );
}

#[test]
fn follower_grants_one_vote_in_a_term() {
    let mut node = with_peers(20, &[10, 30]);
    assert_eq!(node.receive_vote_request(1, Peer::new(10)).len(), 2);
    let effects = node.receive_vote_request(1, Peer::new(30));
    assert_eq!(node.state.voted_for, Some(Peer::new(10)));
    assert_eq!(effects, vec![Effect::ElectionTimer(ELECTION)]);
    let effects = node.receive_vote_request(1, Peer::new(10));
    assert_eq!(effects, vec![Effect::ElectionTimer(ELECTION)]);
}

#[test]
fn a_later_term_frees_the_vote() {
    let mut node = with_peers(20, &[10, 30]);
    assert_eq!(node.receive_vote_request(1, Peer::new(10)).len(), 2);
    let effects = node.receive_vote_request(2, Peer::new(30));
    assert_eq!(node.term(), 2);
    assert_eq!(node.state.voted_for, Some(Peer::new(30)));
    assert_eq!(
        effects,
        vec![
            sent(
                20,
                Recipient::Peer(Peer::new(30)),
                Message::VoteResponse {
                    term: 2,
                    candidate: Peer::new(30),
                    follower: Peer::new(20),
                },
            ),
            Effect::ElectionTimer(ELECTION),
        ]
    );
}

#[test]
fn a_request_of_an_earlier_term_is_ignored() {
    let mut node = with_peers(20, &[10, 30]);
    assert_eq!(node.receive_vote_request(3, Peer::new(10)).len(), 2);
    node.state.election_task = None;
    let effects = node.receive_vote_request(2, Peer::new(30));
    assert_eq!(effects, vec![]);
    assert_eq!(node.term(), 3);
    assert_eq!(node.state.voted_for, Some(Peer::new(10)));
    assert_eq!(node.state.election_task, None);
}

#[test]
fn the_own_request_is_ignored() {
    let mut node = with_peers(20, &[10, 30]);
    let effects = node.receive_vote_request(7, Peer::new(20));
    assert_eq!(effects, vec![]);
    assert_eq!(node.term(), 0);
    assert_eq!(node.state.voted_for, None);
}

#[test]
fn a_candidate_grants_no_vote_but_adopts_the_term() {
    let mut node = candidate(20, &[10, 30]);
    let effects = node.receive_vote_request(4, Peer::new(10));
    assert_eq!(node.role(), Role::Candidate);
    assert_eq!(node.term(), 4);
    assert_eq!(node.state.voted_for, None);
    assert!(node.state.votes.is_empty());
    assert_eq!(effects, vec![Effect::ElectionTimer(ELECTION)]);
}

#[test]
fn a_candidate_keeps_its_own_vote_in_its_term() {
    let mut node = candidate(20, &[10, 30]);
    let effects = node.receive_vote_request(1, Peer::new(10));
    assert_eq!(node.state.voted_for, Some(Peer::new(20)));
    assert_eq!(node.state.votes, ids(&[20]));
    assert_eq!(effects, vec![Effect::ElectionTimer(ELECTION)]);
}

#[test]
fn a_leader_that_hears_a_request_gets_an_election_timer() {
    let mut node = leader(20, &[10, 30]);
    let effects = node.receive_vote_request(1, Peer::new(10));
    assert_eq!(node.role(), Role::Leader);
    assert_eq!(node.term(), 1);
    assert_eq!(node.state.election_task, ELECTION);
    assert_eq!(node.state.heartbeat_task, HEARTBEAT);
    assert_eq!(effects, vec![Effect::ElectionTimer(ELECTION)]);
}

#[test]
fn heartbeat_is_sent_and_armed_again() {
    let mut node = leader(1, &[2, 3]);
    let effects = node.send_heartbeat();
    assert_eq!(
        effects,
        vec![
            sent(1, Recipient::Everyone, Message::Heartbeat { term: 0 }),
            Effect::HeartbeatTimer(HEARTBEAT),
        ]
    );
    let effects = node.on_heartbeat_timeout();
    assert_eq!(effects.len(), 2);
    assert_eq!(node.state.heartbeat_task, HEARTBEAT);
}

#[test]
fn a_cancelled_heartbeat_timer_changes_nothing() {
    let mut node = with_peers(1, &[2, 3]);
    assert_eq!(node.on_heartbeat_timeout(), vec![]);
    assert_eq!(node.state.heartbeat_task, None);
}

#[test]
fn follower_adopts_the_term_of_a_heartbeat() {
    let mut node = with_peers(20, &[10, 30]);
    assert_eq!(node.receive_vote_request(1, Peer::new(10)).len(), 2);
    let effects = node.receive_heartbeat(3, &Peer::new(10));
    assert_eq!(node.term(), 3);
    assert_eq!(node.state.voted_for, None);
    assert_eq!(node.role(), Role::Follower);
    assert_eq!(effects, vec![Effect::ElectionTimer(ELECTION)]);
}

#[test]
fn follower_keeps_its_vote_on_a_heartbeat_of_its_term() {
    let mut node = with_peers(20, &[10, 30]);
    assert_eq!(node.receive_vote_request(1, Peer::new(10)).len(), 2);
    let effects = node.receive_heartbeat(1, &Peer::new(10));
    assert_eq!(node.term(), 1);
    assert_eq!(node.state.voted_for, Some(Peer::new(10)));
    assert_eq!(effects, vec![Effect::ElectionTimer(ELECTION)]);
    let effects = node.receive_heartbeat(0, &Peer::new(10));
    assert_eq!(node.term(), 1);
    assert_eq!(effects, vec![Effect::ElectionTimer(ELECTION)]);
}

#[test]
fn candidate_concedes_to_a_heartbeat() {
    let mut node = candidate(20, &[10, 30]);
    let effects = node.receive_heartbeat(1, &Peer::new(10));
    assert_eq!(node.role(), Role::Follower);
    assert_eq!(node.term(), 1);
    assert_eq!(node.state.voted_for, None);
    assert!(node.state.votes.is_empty());
    assert_eq!(
        effects,
        vec![Effect::ElectionTimer(ELECTION), Effect::RoleChange(Role::Follower)]
    );
}

#[test]
fn candidate_stands_against_a_heartbeat_of_an_earlier_term() {
    let mut node = candidate(20, &[10, 30]);
    let effects = node.receive_heartbeat(0, &Peer::new(10));
    assert_eq!(node.role(), Role::Candidate);
    assert_eq!(node.state.voted_for, Some(Peer::new(20)));
    assert_eq!(node.state.votes, ids(&[20]));
    assert_eq!(effects, vec![Effect::ElectionTimer(ELECTION)]);
}

#[test]
fn leader_ignores_heartbeats() {
    let mut node = leader(20, &[10, 30]);
    let effects = node.receive_heartbeat(9, &Peer::new(10));
    assert_eq!(effects, vec![]);
    assert_eq!(node.role(), Role::Leader);
    assert_eq!(node.term(), 0);
    assert_eq!(node.state.election_task, None);
}

#[test]
fn accepts_looks_at_sender_and_address() {
    let mut node = fresh(1);
    assert!(node.accepts(&Peer::new(2), &Recipient::Everyone));
    assert!(node.accepts(&Peer::new(2), &Recipient::Peer(Peer::new(1))));
    assert!(!node.accepts(&Peer::new(2), &Recipient::Peer(Peer::new(3))));
    assert!(!node.accepts(&Peer::new(1), &Recipient::Everyone));
    node.stop();
    assert!(!node.accepts(&Peer::new(2), &Recipient::Everyone));
}

#[test]
fn a_message_for_another_peer_is_dropped() {
    let mut node = fresh(1);
    let effects = node.on_message(MessageWrapper {
        from: Peer::new(2),
        to: Recipient::Peer(Peer::new(3)),
        msg: Message::PeerAdded,
    });
    assert_eq!(effects, vec![]);
    assert_eq!(node.peers(), ids(&[1]));
}

#[test]
fn an_own_message_is_dropped() {
    let mut node = with_peers(1, &[2]);
    let effects = node.on_message(broadcast(1, Message::PeerRemoved));
    assert_eq!(effects, vec![]);
    assert_eq!(node.peers(), ids(&[1, 2]));
}

#[test]
fn messages_go_to_their_transitions() {
    let mut node = fresh(1);
    assert_eq!(node.on_message(broadcast(2, Message::PeerAdded)), vec![]);
    assert_eq!(node.on_message(broadcast(3, Message::PeerAdded)), vec![]);
    assert_eq!(node.peers(), ids(&[1, 2, 3]));
    assert_eq!(node.on_message(broadcast(3, Message::PeerRemoved)), vec![]);
    assert_eq!(node.peers(), ids(&[1, 2]));
    assert_eq!(node.on_message(broadcast(2, Message::PeerSet(ids(&[2, 5, 6])))), vec![]);
    assert_eq!(node.peers(), ids(&[1, 2, 5, 6]));
    assert_eq!(
        node.on_message(broadcast(2, Message::Heartbeat { term: 4 })),
        vec![Effect::ElectionTimer(ELECTION)]
    );
    assert_eq!(node.term(), 4);
    let effects =
        node.on_message(broadcast(5, Message::VoteRequest { term: 5, candidate: Peer::new(5) }));
    assert_eq!(node.state.voted_for, Some(Peer::new(5)));
    assert_eq!(effects.len(), 2);
    let effects = node.on_message(broadcast(2, Message::Payload("hello".to_string())));
    assert_eq!(effects, vec![Effect::Received("hello".to_string())]);
}

#[test]
fn a_vote_for_another_candidate_is_dropped() {
    let mut node = candidate(10, &[20, 30]);
    let effects = node.on_message(broadcast(
        20,
        Message::VoteResponse { term: 1, candidate: Peer::new(30), follower: Peer::new(20) },
    ));
    assert_eq!(effects, vec![]);
    assert_eq!(node.state.votes, ids(&[10]));
    let effects = node.on_message(MessageWrapper {
        from: Peer::new(20),
        to: Recipient::Peer(Peer::new(10)),
        msg: Message::VoteResponse {
            term: 1,
            candidate: Peer::new(10),
            follower: Peer::new(20),
        },
    });
    assert_eq!(node.role(), Role::Leader);
    assert_eq!(effects.len(), 4);
}

#[test]
fn only_the_leader_issues() {
    let node = with_peers(1, &[2, 3]);
    assert_eq!(node.issue("hello".to_string()), vec![]);
    let node = candidate(1, &[2, 3]);
    assert_eq!(node.issue("hello".to_string()), vec![]);
    let node = leader(1, &[2, 3]);
    assert_eq!(
        node.issue("hello".to_string()),
        vec![sent(1, Recipient::Everyone, Message::Payload("hello".to_string()))]
    );
}

#[test]
fn stop_cancels_what_is_there() {
    let mut node = with_peers(1, &[2, 3]);
    let effects = node.stop();
    assert_eq!(effects, vec![Effect::ElectionTimer(None), Effect::Unlisten]);
    assert_eq!(node.state.election_task, None);
    assert_eq!(node.state.heartbeat_task, None);
    assert!(!node.state.listening);
    assert_eq!(node.role(), Role::Follower);
    let mut node = leader(1, &[2, 3]);
    let effects = node.stop();
    assert_eq!(effects, vec![Effect::HeartbeatTimer(None), Effect::Unlisten]);
    assert_eq!(node.role(), Role::Leader);
    assert_eq!(node.peers(), ids(&[1, 2, 3]));
}

#[test]
fn shutdown_says_goodbye() {
    let mut node = with_peers(1, &[2, 3]);
    let effects = node.shutdown();
    assert_eq!(
        effects,
        vec![
            Effect::ElectionTimer(None),
            Effect::Unlisten,
            sent(1, Recipient::Everyone, Message::PeerRemoved),
        ]
    );
    assert!(!node.state.listening);
}

#[test]
fn handle_takes_every_event() {
    let mut node = fresh(1);
    assert_eq!(node.handle(Event::Delivery(broadcast(2, Message::PeerAdded))), vec![]);
    assert_eq!(node.handle(Event::HeartbeatTimeout), vec![]);
    assert_eq!(node.handle(Event::Issue("early".to_string())), vec![]);
    assert_eq!(node.handle(Event::ElectionTimeout).len(), 4);
    assert_eq!(node.role(), Role::Leader);
    assert_eq!(node.handle(Event::HeartbeatTimeout).len(), 2);
    assert_eq!(
        node.handle(Event::Issue("hello".to_string())),
        vec![sent(1, Recipient::Everyone, Message::Payload("hello".to_string()))]
    );
    assert_eq!(
        node.handle(Event::Stop),
        vec![Effect::HeartbeatTimer(None), Effect::Unlisten]
    );
    assert_eq!(node.handle(Event::Stop), vec![]);
}
