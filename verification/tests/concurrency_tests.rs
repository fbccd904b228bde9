use raspberry_pi_localization::requester::{NtripClient, NtripClientSettings, Requester};
use raspberry_pi_localization::sampler::ParSampler;

/// Last write wins: three values arriving between two polls leave only
/// the most recent one.
#[test]
fn sampler_last_write_wins() {
    let mut sampler: ParSampler<i64> = ParSampler::new();
    assert_eq!(sampler.poll(), None);

    sampler.absorb(vec![Some(1), Some(2), Some(3)]);
    assert_eq!(sampler.poll(), Some(3));

    // Absent ticks never erase the held value.
    sampler.absorb(vec![None, None]);
    assert_eq!(sampler.poll(), Some(3));

    // A later burst overwrites again, ignoring trailing silence.
    sampler.absorb(vec![Some(7), None]);
    assert_eq!(sampler.poll(), Some(7));
}

/// Completeness: N submissions, N worker rounds, one drain of exactly N
/// responses in submission order.
#[test]
fn requester_completeness() {
    let mut rq: Requester<i64, i64> = Requester::new();
    rq.submit(1).unwrap();
    rq.submit(2).unwrap();
    rq.submit(3).unwrap();

    loop {
        match rq.take_request() {
            Some(req) => rq.deliver_response(req * 10),
            None => break,
        }
    }

    let responses = rq.drain_responses();
    assert_eq!(responses, vec![10, 20, 30]);
    assert_eq!(rq.drain_responses().len(), 0);
}

/// Submissions are refused once the worker has been told to stop.
#[test]
fn requester_stop_refuses_submissions() {
    let mut rq: Requester<i64, i64> = Requester::new();
    rq.submit(1).unwrap();
    rq.stop();
    assert!(rq.submit(2).is_err());

    // What was already pending can still be worked off and drained.
    match rq.take_request() {
        Some(req) => rq.deliver_response(req + 1),
        None => panic!("a request was pending"),
    }
    assert_eq!(rq.drain_responses(), vec![2]);
}

#[test]
fn ntrip_header_values() {
    let auth = NtripClient::authorization_value("user", "pass");
    assert_eq!(auth, "Basic dXNlcjpwYXNz");

    let gga = NtripClient::gga_header_value("$GPGGA,1,2\r\n");
    assert_eq!(gga, "$GPGGA,1,2");
}

#[test]
fn ntrip_settings_hold_their_values() {
    let settings = NtripClientSettings::new(
        "caster.example".to_string(),
        2101,
        "MOUNT".to_string(),
        "user".to_string(),
        "pass".to_string(),
        "$GPGGA,1,2\r\n".to_string(),
    );
    assert_eq!(settings.addr, "caster.example");
    assert_eq!(settings.port, 2101);
    assert_eq!(settings.mountpoint, "MOUNT");
    assert_eq!(settings.initial_gga_sentence, "$GPGGA,1,2\r\n");
}
