use sensor_node::channel::ReadingChannel;
use sensor_node::clock::WallTime;
use sensor_node::sample::Provenance;
use sensor_node::sample::Reading;
use sensor_node::sample::Sample;

fn reading(t: i64) -> Reading {
    Reading {
        timestamp: WallTime { unix_timestamp: t, offset_seconds: 0 },
        sample: Sample::default(),
        provenance: Provenance::Synthetic,
    }
}

#[test]
fn channel_refuses_when_full_and_hands_reading_back() {
    let mut channel = ReadingChannel::new();
    assert!(channel.is_empty());
    assert_eq!(channel.try_send(reading(1)), Ok(()));
    assert_eq!(channel.try_send(reading(2)), Ok(()));
    assert_eq!(channel.try_send(reading(3)), Ok(()));
    assert!(channel.is_full());
    assert_eq!(channel.len(), 3);
    assert_eq!(channel.try_send(reading(4)), Err(reading(4)));
    assert_eq!(channel.len(), 3);

    assert_eq!(channel.try_receive(), Some(reading(1)));
    assert!(!channel.is_full());
    assert_eq!(channel.try_send(reading(4)), Ok(()));

    assert_eq!(channel.try_receive(), Some(reading(2)));
    assert_eq!(channel.try_receive(), Some(reading(3)));
    assert_eq!(channel.try_receive(), Some(reading(4)));
    assert_eq!(channel.try_receive(), None);
    assert!(channel.is_empty());
}

#[test]
fn channel_neither_drops_nor_duplicates() {
    let mut channel = ReadingChannel::new();
    let mut received = Vec::new();
    let mut next = 0;
    while next < 10 {
        match channel.try_send(reading(next)) {
            Ok(()) => next += 1,
            Err(back) => {
                assert_eq!(back, reading(next));
                received.push(channel.try_receive().unwrap());
            }
        }
    }
    while let Some(r) = channel.try_receive() {
        received.push(r);
    }
    let expected: Vec<Reading> = (0..10).map(reading).collect();
    assert_eq!(received, expected);
}
