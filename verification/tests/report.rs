use rivet::report::{
    choose_response_text, decimal_string, format_body_size, format_response_text, is_success_status,
    request_error_message, response_outcome, status_color, status_text, StatusColor,
};

/// The body size as floating-point formatting writes it.
fn by_floats(size: usize) -> String {
    if size >= 1024 * 1024 {
        format!("{:.2} MB", size as f64 / 1024.0 / 1024.0)
    } else if size >= 1024 {
        format!("{:.2} KB", size as f64 / 1024.0)
    } else {
        format!("{} bytes", size)
    }
}

#[test]
fn body_sizes() {
    assert_eq!(format_body_size(0), "0 bytes");
    assert_eq!(format_body_size(1023), "1023 bytes");
    assert_eq!(format_body_size(1024), "1.00 KB");
    assert_eq!(format_body_size(1536), "1.50 KB");
    assert_eq!(format_body_size(1024 * 1024), "1.00 MB");
    assert_eq!(format_body_size(5 * 1024 * 1024 + 1024 * 1024 / 4), "5.25 MB");
}

#[test]
fn body_sizes_agree_with_float_formatting() {
    for size in 0..20_000usize {
        assert_eq!(format_body_size(size), by_floats(size), "{size}");
    }
    let mut seed: u64 = 12345;
    for _ in 0..20_000 {
        seed = seed.wrapping_mul(6364136223846793005).wrapping_add(1442695040888963407);
        let size = (seed >> (seed % 60)) as usize;
        assert_eq!(format_body_size(size), by_floats(size), "{size}");
    }
    for shift in 50..64u32 {
        let base = 1usize << shift;
        for delta in 0..300usize {
            for size in [base + delta, base - delta, base.wrapping_add(base / 2 + delta)] {
                assert_eq!(format_body_size(size), by_floats(size), "{size}");
            }
        }
    }
    assert_eq!(format_body_size(usize::MAX), by_floats(usize::MAX));
}

#[test]
fn body_size_ties_round_to_even() {
    // 1034 bytes is 1.009765625 KB; 1029.12 KB ties cannot occur exactly, but
    // 0.5 hundredths can: 100 * 1034 / 1024 is not a tie, 100 * 1152 / 1024 = 112.5.
    assert_eq!(format_body_size(1152), by_floats(1152));
    assert_eq!(format_body_size(1152), "1.12 KB");
}

#[test]
fn decimals() {
    assert_eq!(decimal_string(0), "0");
    assert_eq!(decimal_string(7), "7");
    assert_eq!(decimal_string(1200), "1200");
    assert_eq!(decimal_string(u64::MAX), u64::MAX.to_string());
}

#[test]
fn status_lines() {
    assert_eq!(status_text(200), "200 OK");
    assert_eq!(status_text(404), "404 Not Found");
    assert_eq!(status_text(799), "799 Unknown");
    assert_eq!(status_color(204), StatusColor::Green);
    assert_eq!(status_color(301), StatusColor::Yellow);
    assert_eq!(status_color(404), StatusColor::Red);
    assert_eq!(status_color(503), StatusColor::Red);
    assert_eq!(status_color(102), StatusColor::Yellow);
    assert!(is_success_status(299));
    assert!(!is_success_status(300));
}

#[test]
fn error_messages() {
    assert_eq!(
        request_error_message(true, "x".to_string()),
        "Request timed out. Increase [config] timeout or check the server."
    );
    assert_eq!(request_error_message(false, "boom".to_string()), "boom");
}

#[test]
fn response_texts() {
    assert_eq!(format_response_text("not json".to_string()), "not json");
    assert_eq!(format_response_text("{\"a\":1}".to_string()), "{\n  \"a\": 1\n}");
    assert_eq!(choose_response_text("raw".to_string(), Some("pretty".to_string())), "pretty");
    assert_eq!(choose_response_text("raw".to_string(), None), "raw");
}

#[test]
fn response_outcome_follows_the_status() {
    assert_eq!(response_outcome(200, "{\"a\":1}".to_string()), Ok("{\n  \"a\": 1\n}".to_string()));
    assert_eq!(response_outcome(299, "plain".to_string()), Ok("plain".to_string()));
    assert_eq!(response_outcome(404, "not found".to_string()), Err("not found".to_string()));
    assert_eq!(response_outcome(500, "[1,2]".to_string()), Err("[\n  1,\n  2\n]".to_string()));
    assert_eq!(response_outcome(199, "".to_string()), Err("".to_string()));
    assert_eq!(response_outcome(300, "moved".to_string()), Err("moved".to_string()));
}
