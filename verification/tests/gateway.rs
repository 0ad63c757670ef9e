use raw_ipa::ff::{Field, Fp31, Fp32BitPrime, Gf32Bit};
use raw_ipa::helpers::buffers::UnorderedReceiver;
use raw_ipa::helpers::gateway::receive::{from_payload, to_payload};
use raw_ipa::helpers::buffers::send::PushError;
use raw_ipa::helpers::gateway::{GatewayReceivers, ReceivingEnd, SendingEnd};
use raw_ipa::helpers::query::{FieldType, QueryConfig, QueryType};
use raw_ipa::helpers::{
    ChannelId, Error, Gate, Gateway, GatewayConfig, HelperIdentity, MessagePayload,
    ReceiveFailure, Role, RoleAssignment,
};
use raw_ipa::protocol::{QueryId, RecordId};
use raw_ipa::secret_sharing::replicated::semi_honest::AdditiveShare;
use tokio::sync::oneshot::error::TryRecvError;

fn gateway_of(me: HelperIdentity) -> Gateway {
    Gateway::new(
        QueryId,
        GatewayConfig::default(),
        RoleAssignment::new(HelperIdentity::make_three()),
        me,
    )
}

#[test]
fn channel_ordering() {
    let mut gateway = gateway_of(HelperIdentity::One);
    let channel = ChannelId::new(Role::H2, Gate::from_str("x"));
    let end: ReceivingEnd<Fp32BitPrime> = gateway.get_receiver(&channel);

    let sent: Vec<Fp32BitPrime> =
        (0..5_u128).map(|i| Fp32BitPrime::truncate_from(1000 + i)).collect();
    let payloads: Vec<MessagePayload> = sent.iter().map(to_payload).collect();

    // Record 3 is asked for before record 0, and both before anything arrives.
    let mut wait_3 = end.receive(gateway.receivers(), RecordId(3));
    let mut wait_0 = end.receive(gateway.receivers(), RecordId(0));
    assert_eq!(Err(TryRecvError::Empty), wait_3.try_recv());
    assert_eq!(Err(TryRecvError::Empty), wait_0.try_recv());

    // The records arrive in order, in chunks of different sizes.
    gateway.receivers().deliver(&channel, &payloads[0]);
    assert_eq!(Err(TryRecvError::Empty), wait_3.try_recv());
    gateway.receivers().deliver(&channel, &payloads[1..3].concat());
    gateway.receivers().deliver(&channel, &payloads[3..5].concat());

    let got_3 = end.received(gateway.receivers(), Ok(wait_3.try_recv().unwrap())).unwrap();
    let got_0 = end.received(gateway.receivers(), Ok(wait_0.try_recv().unwrap())).unwrap();
    assert_eq!(sent[3], got_3);
    assert_eq!(sent[0], got_0);
    // Nothing comes twice.
    assert_eq!(Err(TryRecvError::Closed), wait_3.try_recv());
    assert_eq!(Err(TryRecvError::Closed), wait_0.try_recv());
    assert!(!gateway.receivers().check_idle_and_reset());

    for record in [4_u32, 1, 2] {
        let mut wait = end.receive(gateway.receivers(), RecordId(record));
        let got = end.received(gateway.receivers(), Ok(wait.try_recv().unwrap())).unwrap();
        assert_eq!(sent[record as usize], got);
    }

    assert!(gateway.receivers().get_waiting_messages().is_empty());
    assert!(gateway.receivers().check_idle_and_reset());
}

#[test]
fn the_same_channel_gets_the_same_receiving_side() {
    let mut receivers = GatewayReceivers::default();
    let x = ChannelId::new(Role::H2, Gate::from_str("x"));
    let y = ChannelId::new(Role::H2, Gate::from_str("y"));
    let x_of_h3 = ChannelId::new(Role::H3, Gate::from_str("x"));

    let first = receivers.get_or_create(&x, UnorderedReceiver::new);
    let other = receivers.get_or_create(&y, UnorderedReceiver::new);
    let third = receivers.get_or_create(&x_of_h3, UnorderedReceiver::new);
    let again = receivers.get_or_create(&x, || unreachable!());
    assert_eq!(first, again);
    assert_ne!(first, other);
    assert_ne!(first, third);
    assert_ne!(other, third);

    // What arrived through one handle is there for the other.
    receivers.receive_messages(first, &x, &[1, 2, 3, 4, 5, 6, 7, 8]);
    assert_eq!(RecordId(1), receivers.next_record_id(&x));
    assert_eq!(RecordId(0), receivers.next_record_id(&y));
    let (tx, mut rx) = tokio::sync::oneshot::channel();
    receivers.recv(again, &x, RecordId(0), tx);
    assert_eq!(Ok([1, 2, 3, 4, 5, 6, 7, 8]), rx.try_recv());
}

#[test]
fn a_receiving_side_that_is_made_is_kept_as_it_is() {
    let mut receivers = GatewayReceivers::default();
    let x = ChannelId::new(Role::H1, Gate::from_str("x"));
    let handle = receivers.get_or_create(&x, || {
        let mut receiver = UnorderedReceiver::new();
        receiver.receive([9; 8]);
        receiver
    });
    assert_eq!(RecordId(1), receivers.next_record_id(&x));
    let (tx, mut rx) = tokio::sync::oneshot::channel();
    receivers.recv(handle, &x, RecordId(0), tx);
    assert_eq!(Ok([9; 8]), rx.try_recv());
}

#[test]
fn waiting_messages_are_listed_by_channel() {
    let mut gateway = gateway_of(HelperIdentity::Two);
    let x = ChannelId::new(Role::H1, Gate::from_str("x"));
    let y = ChannelId::new(Role::H3, Gate::from_str("y"));
    let z = ChannelId::new(Role::H3, Gate::from_str("z"));
    let end_x: ReceivingEnd<Fp31> = gateway.get_receiver(&x);
    let end_y: ReceivingEnd<Fp31> = gateway.get_receiver(&y);
    let _end_z: ReceivingEnd<Fp31> = gateway.get_receiver(&z);
    assert!(gateway.receivers().check_idle_and_reset());

    let _w1 = end_x.receive(gateway.receivers(), RecordId(2));
    let _w2 = end_x.receive(gateway.receivers(), RecordId(0));
    let _w3 = end_y.receive(gateway.receivers(), RecordId(7));
    gateway.receivers().deliver(&z, &[0; 8]);

    let mut waiting = gateway.receivers().get_waiting_messages();
    for (_, records) in waiting.iter_mut() {
        records.sort_unstable();
    }
    waiting.sort_by_key(|(id, _)| id.gate.to_string());
    assert_eq!(vec![(x.clone(), vec![0, 2]), (y.clone(), vec![7])], waiting);
    assert!(gateway.receivers().is_requested(&x, RecordId(2)));
    assert!(!gateway.receivers().is_requested(&x, RecordId(1)));
    assert!(!gateway.receivers().check_idle_and_reset());
}

#[test]
fn a_wait_that_fails_names_the_channel() {
    let mut gateway = gateway_of(HelperIdentity::One);
    let channel = ChannelId::new(Role::H3, Gate::from_str("protocol/step"));
    let end: ReceivingEnd<Fp31> = gateway.get_receiver(&channel);
    let outcome = end.received(gateway.receivers(), Err(ReceiveFailure::ChannelClosed));
    assert_eq!(
        Err(Error::ReceiveError {
            source: Role::H3,
            step: "protocol/step".to_string(),
            inner: ReceiveFailure::ChannelClosed,
        }),
        outcome
    );
    assert_eq!(&channel, end.channel_id());
}

#[test]
fn messages_fill_the_front_of_a_record() {
    let v = Fp31::truncate_from(17);
    assert_eq!([17, 0, 0, 0, 0, 0, 0, 0], to_payload(&v));
    assert_eq!(v, from_payload::<Fp31>(&[17, 9, 9, 9, 9, 9, 9, 9]));

    let w = Gf32Bit::truncate_from(0x0403_0201);
    assert_eq!([1, 2, 3, 4, 0, 0, 0, 0], to_payload(&w));
    assert_eq!(w, from_payload::<Gf32Bit>(&to_payload(&w)));

    let share = AdditiveShare::new(
        Fp32BitPrime::truncate_from(0x0403_0201),
        Fp32BitPrime::truncate_from(0x0807_0605),
    );
    assert_eq!([1, 2, 3, 4, 5, 6, 7, 8], to_payload(&share));
    assert_eq!(share, from_payload::<AdditiveShare<Fp32BitPrime>>(&[1, 2, 3, 4, 5, 6, 7, 8]));
}

#[test]
fn a_gateway_knows_its_query_and_role() {
    let roles = RoleAssignment::new([
        HelperIdentity::Two,
        HelperIdentity::Three,
        HelperIdentity::One,
    ]);
    let gateway = Gateway::new(QueryId, GatewayConfig::default(), roles, HelperIdentity::Three);
    assert_eq!(Role::H2, gateway.role());
    assert_eq!(QueryId, gateway.query_id());
    assert_eq!(1024, gateway.config().active_work());
    assert_eq!(Role::H3, roles.role(HelperIdentity::One));
    assert_eq!(HelperIdentity::Two, roles.identity(Role::H1));
    let config = QueryConfig::new(QueryType::TestMultiply, FieldType::Fp31, 3).unwrap();
    assert_eq!(GatewayConfig::default(), GatewayConfig::from(&config));
    assert_eq!(None, GatewayConfig::new(0));
    assert_eq!(16, GatewayConfig::new(16).unwrap().active_work());
    assert_eq!([HelperIdentity::Three, HelperIdentity::One], HelperIdentity::Two.others());
}

#[test]
fn what_is_sent_is_what_is_received() {
    // The first helper sends to the second on the step "x"; the second
    // knows that channel by the role of the first.
    let mut sending = gateway_of(HelperIdentity::One);
    let mut receiving = gateway_of(HelperIdentity::Two);
    let to_h2 = ChannelId::new(Role::H2, Gate::from_str("x"));
    let from_h1 = ChannelId::new(Role::H1, Gate::from_str("x"));
    let sender: SendingEnd<Fp32BitPrime> = sending.get_sender(&to_h2);
    let receiver: ReceivingEnd<Fp32BitPrime> = receiving.get_receiver(&from_h1);
    assert_eq!(&to_h2, sender.channel_id());

    let values: Vec<Fp32BitPrime> =
        (0..5_u128).map(|i| Fp32BitPrime::truncate_from(7 * i + 1)).collect();

    let mut wait_3 = receiver.receive(receiving.receivers(), RecordId(3));
    let mut wait_0 = receiver.receive(receiving.receivers(), RecordId(0));

    // The steps send in an order of their own; the records leave in theirs.
    let mut chunks = Vec::new();
    for record in [1_u32, 0, 4, 3, 2] {
        let bytes = sender
            .send(sending.senders(), RecordId(record), &values[record as usize])
            .unwrap();
        chunks.push(bytes.len());
        receiving.receivers().deliver(&from_h1, &bytes);
    }
    assert_eq!(vec![0, 16, 0, 0, 24], chunks);
    assert_eq!(
        Err(PushError::Duplicate { record_id: RecordId(2) }),
        sender.send(sending.senders(), RecordId(2), &values[0])
    );

    let got = receiver.received(receiving.receivers(), Ok(wait_3.try_recv().unwrap()));
    assert_eq!(Ok(values[3]), got);
    let got = receiver.received(receiving.receivers(), Ok(wait_0.try_recv().unwrap()));
    assert_eq!(Ok(values[0]), got);
    for record in [2_u32, 4, 1] {
        let mut wait = receiver.receive(receiving.receivers(), RecordId(record));
        let got = receiver.received(receiving.receivers(), Ok(wait.try_recv().unwrap()));
        assert_eq!(Ok(values[record as usize]), got);
    }
    assert!(receiving.receivers().check_idle_and_reset());
}

#[test]
fn a_gateway_lets_work_be_in_flight_as_it_is_configured() {
    let mut gateway = Gateway::new(
        QueryId,
        GatewayConfig::new(2).unwrap(),
        RoleAssignment::new(HelperIdentity::make_three()),
        HelperIdentity::One,
    );
    let channel = ChannelId::new(Role::H3, Gate::from_str("y"));
    let sender: SendingEnd<Fp31> = gateway.get_sender(&channel);
    let one = Fp31::one();
    assert_eq!(Ok(vec![]), sender.send(gateway.senders(), RecordId(1), &one));
    assert_eq!(
        Err(PushError::OutOfRange { record_id: RecordId(2) }),
        sender.send(gateway.senders(), RecordId(2), &one)
    );
    assert_eq!(
        Ok(vec![1, 0, 0, 0, 0, 0, 0, 0, 1, 0, 0, 0, 0, 0, 0, 0]),
        sender.send(gateway.senders(), RecordId(0), &one)
    );
    assert_eq!(2, gateway.senders().frontier(&channel));
}
