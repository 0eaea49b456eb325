use argus::doubles::{describe_duration, share_even_percent, share_of_progress, share_parts};

#[test]
fn durations_are_those_of_doubles() {
    let mut samples: Vec<u64> = (0..20_000u64).collect();
    for k in 0..64 {
        for d in [0u64, 1, 3, 5, 125, 995, 1005] {
            samples.push((1u64 << k).wrapping_add(d));
            samples.push((1u64 << k).wrapping_sub(d));
        }
    }
    samples.push(u64::MAX);
    for i in 0..2000u64 {
        samples.push(i * 9_223_372_036_854_775 + 125);
    }
    for ms in samples {
        let (one, two) = if ms < 1000 {
            (format!("{ms}ms"), format!("{ms}ms"))
        } else {
            (
                format!("{:.1}s", ms as f64 / 1000.0),
                format!("{:.2}s", ms as f64 / 1000.0),
            )
        };
        assert_eq!(describe_duration(ms, 1), one, "{ms}");
        assert_eq!(describe_duration(ms, 2), two, "{ms}");
    }
}

#[test]
fn shares_are_those_of_doubles() {
    let mut shares: Vec<f64> = (0..=2000).map(|i| i as f64 / 2000.0).collect();
    for i in 0..500 {
        let x = (i as f64 * 0.618_033_988_75).fract();
        shares.push(x);
        shares.push(x * x * x);
        shares.push(x / 1e9);
    }
    shares.push(f64::MIN_POSITIVE);
    shares.push(5e-324);
    shares.push(0.005);
    shares.push(0.995);
    shares.push(0.045);
    shares.push(0.05f64.next_down());
    for x in shares {
        let bits = x.to_bits();
        assert_eq!(share_parts(bits, 10), (x * 10.0).round() as u64, "{x:?}");
        assert_eq!(share_parts(bits, 100), (x * 100.0).round() as u64, "{x:?}");
        assert_eq!(share_even_percent(bits).to_string(), format!("{:.0}", x * 100.0), "{x:?}");
    }
}

#[test]
fn progress_is_that_of_doubles() {
    let counts = [
        0u64, 1, 2, 3, 5, 7, 42, 99, 100, 101, 199, 200, 201, 499, 500, 12345, 1 << 40, (1 << 53) + 1,
        u64::MAX - 1, u64::MAX,
    ];
    for current in counts {
        for total in counts {
            for parts in [0u32, 1, 40, 64, 100, 250, 65535] {
                let x = current as f64 / total.max(1) as f64;
                let expected = (x * f64::from(parts)).round() as u128;
                assert_eq!(
                    share_of_progress(current, total, parts),
                    expected,
                    "{current} {total} {parts}"
                );
            }
        }
    }
    for limit in 0..1000u64 {
        let expected = ((limit as f64 / 200.0) * 40.0).round() as u128;
        assert_eq!(share_of_progress(limit, 200, 40), expected, "{limit}");
    }
}
