use signal_serve::clock::{now_ts, timestamp};
use signal_serve::link::{link_notice, link_page, link_result};
use signal_serve::server::{health_check, store_url};

#[test]
fn store_url_builds_sqlite_path() {
    assert_eq!(store_url("/tmp/foo"), "sqlite:///tmp/foo/signal-serve.db");
    assert_eq!(store_url("/home/user/signal"), "sqlite:///home/user/signal/signal-serve.db");
}

#[test]
fn store_url_adds_no_second_separator() {
    assert_eq!(store_url("/tmp/foo/"), "sqlite:///tmp/foo/signal-serve.db");
    assert_eq!(store_url("/"), "sqlite:///signal-serve.db");
    assert_eq!(store_url(""), "sqlite://signal-serve.db");
    assert_eq!(store_url("rel"), "sqlite://rel/signal-serve.db");
}

#[test]
fn health_returns_204() {
    assert_eq!(health_check(), 204);
}

#[test]
fn link_page_shows_the_url_twice() {
    let page = link_page("sgnl://x?y");
    assert!(page.starts_with("<!DOCTYPE html><html><head><title>Signal Link</title>"));
    assert!(page.contains("padding:8px\">sgnl://x?y</pre>\n"));
    assert!(page.contains("getElementById(\"qrcode\"), \"sgnl://x?y\");</script>\n</body></html>"));
    assert_eq!(page.matches("sgnl://x?y").count(), 2);
}

#[test]
fn link_notice_shows_the_url() {
    assert!(link_notice("sgnl://x").contains("Provisioning URL:\n  sgnl://x\n\nOpen Signal mobile"));
}

#[test]
fn timestamp_keeps_the_low_bits() {
    assert_eq!(timestamp(Some(1_700_000_000_000)), 1_700_000_000_000);
    assert_eq!(timestamp(Some((1u128 << 64) + 5)), 5);
    assert_eq!(timestamp(None), 0);
}

#[test]
fn now_ts_follows_the_clock() {
    let before = std::time::SystemTime::now()
        .duration_since(std::time::UNIX_EPOCH)
        .unwrap()
        .as_millis() as u64;
    let now = now_ts();
    assert!(before <= now && now < before + 10_000);
}

#[test]
fn base64_text_has_to_fit_in_memory() {
    assert!(signal_serve::codec::is_encodable(0));
    assert!(signal_serve::codec::is_encodable(1 << 20));
    let most = isize::MAX as usize / 4 * 3;
    assert!(signal_serve::codec::is_encodable(most));
    assert!(!signal_serve::codec::is_encodable(most + 1));
    assert!(!signal_serve::codec::is_encodable(usize::MAX));
}

#[test]
fn error_of_the_link_goes_first() {
    assert_eq!(link_result::<&str>(Ok(()), Ok(())), Ok(()));
    assert_eq!(link_result(Err("link"), Err("url")), Err("link"));
    assert_eq!(link_result(Err("link"), Ok(())), Err("link"));
    assert_eq!(link_result(Ok(()), Err("url")), Err("url"));
}
