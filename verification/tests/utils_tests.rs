use raspberry_pi_localization::fixed::{div_i128, FIX_ONE};
use raspberry_pi_localization::geo::GeoCoord;
use raspberry_pi_localization::gga::extract_gga_sentence;
use raspberry_pi_localization::kalman::dt_fix_of_ms;
use raspberry_pi_localization::logic::Sensor;
use raspberry_pi_localization::utils::{GameLoop, LogErrUnwrap, Utils};

#[test]
fn test_extract_gga() {
    let sentence =
        "$GNRMC,185823.40,A,4808.7402374,N,01133.9324760,E,0.00,112.64,130117,3.00,E,A*14\r\n";
    assert!(extract_gga_sentence(sentence).is_none());

    let sentence = "$GPGGA,123519,4807.038,N,01131.000,E,1,08,0.9,545.4,M,46.9,M,,*47\r\n";
    assert!(extract_gga_sentence(sentence).is_some());

    let sentence = "abcdefg";
    assert!(extract_gga_sentence(sentence).is_none());

    let sentence = "$GNGGA,123519.00,4807.038,N,01131.000,E,1,08,0.9,545.4,M,46.9,M,,*77\r\n$GNRMC,185823.40,A,4808.7402374,N,01133.9324760,E,0.00,112.64,130117,3.00,E,A*14\r\n";
    assert!(extract_gga_sentence(sentence).is_some());

    let sentence = "$GNRMC,185823.40,A,4808.7402374,N,01133.9324760,E,0.00,112.64,130117,3.00,E,A*14\r\n$GNGGA,123519.00,4807.038,N,01131.000,E,1,08,0.9,545.4,M,46.9,M,,*77\r\n";
    assert!(extract_gga_sentence(sentence).is_some());

    let sentence = "$GNRMC,202521.36,V,,,,,,,090823,,,N,V*1A\r\n";
    assert!(extract_gga_sentence(sentence).is_none());
}

#[test]
fn extract_gga_returns_the_sentence_itself() {
    let text = "noise$GPGGA,123519,4807.038,N,01131.000,E,1,08,0.9,545.4,M,46.9,M,,*47\r\ntail";
    let found = extract_gga_sentence(text).unwrap();
    assert_eq!(
        found,
        "$GPGGA,123519,4807.038,N,01131.000,E,1,08,0.9,545.4,M,46.9,M,,*47\r\n"
    );
}

#[test]
fn game_loop_paces_frames() {
    // Ten frames per second is a hundred milliseconds per frame.
    let mut game_loop = GameLoop::from_fps(10, 1000);
    assert_eq!(game_loop.duration_per_frame_ms, 100);

    // Forty milliseconds into the frame: wait out the remaining sixty.
    let step = game_loop.tick(1040);
    assert_eq!(step.frame, 0);
    assert_eq!(step.wait_ms, 60);
    assert_eq!(step.lag_ms, 0);

    // Thirty milliseconds late: no wait, the lag is reported.
    let step = game_loop.tick(1230);
    assert_eq!(step.frame, 1);
    assert_eq!(step.wait_ms, 0);
    assert_eq!(step.lag_ms, 30);

    let step = game_loop.tick(1230);
    assert_eq!(step.frame, 2);
    assert_eq!(step.wait_ms, 100);
}

#[test]
fn dt_conversion_is_exact() {
    assert_eq!(dt_fix_of_ms(100), 6553);
    assert_eq!(dt_fix_of_ms(1000), FIX_ONE);
    assert_eq!(dt_fix_of_ms(0), 0);
}

#[test]
fn division_truncates_toward_zero() {
    assert_eq!(div_i128(7, 2), 3);
    assert_eq!(div_i128(-7, 2), -3);
    assert_eq!(div_i128(7, -2), -3);
    assert_eq!(div_i128(-7, -2), 3);
}

#[test]
fn log_err_unwrap_falls_back() {
    let ok: Result<i64, &str> = Ok(5);
    let err: Result<i64, &str> = Err("broken");
    assert_eq!(ok.log_err_unwrap(0), 5);
    assert_eq!(err.log_err_unwrap(0), 0);
}

struct ScriptedGps {
    readings: Vec<Option<GeoCoord>>,
    at: usize,
}

impl Sensor<GeoCoord> for ScriptedGps {
    fn next(&mut self) -> Option<GeoCoord> {
        let r = if self.at < self.readings.len() {
            self.readings[self.at]
        } else {
            None
        };
        self.at += 1;
        r
    }
}

#[test]
fn base_point_is_first_reading() {
    let mut gps = ScriptedGps {
        readings: vec![None, None, Some(GeoCoord::new(11, 48)), Some(GeoCoord::new(0, 0))],
        at: 0,
    };
    let base = Utils::get_base_point(&mut gps, 10).unwrap();
    assert_eq!(base, GeoCoord::new(11, 48));

    let mut dead = ScriptedGps { readings: vec![], at: 0 };
    assert!(Utils::get_base_point(&mut dead, 5).is_none());
}
