use nginx_stats::engine::{decide, Decision, Thresholds};
use nginx_stats::stats::{parse_stats, parse_u32_text, select_stream, Nginx};

fn backend(application: &str, key: &str) -> Nginx {
    Nginx {
        stats_url: "http://localhost/stat".to_string(),
        application: application.to_string(),
        key: key.to_string(),
    }
}

fn two_app_document() -> String {
    let mut body = String::new();
    body.push_str("<?xml version=\"1.0\" encoding=\"utf-8\" ?>\n");
    body.push_str("<?xml-stylesheet type=\"text/xsl\" href=\"/stat.xsl\" ?>\n");
    body.push_str("<rtmp>\n<server>\n");
    for (app, bw1, bw2) in [("live", 512000u32, 768000u32), ("other", 111000, 222000)] {
        body.push_str("<application>\n<name>");
        body.push_str(app);
        body.push_str("</name>\n<live>\n");
        for (stream, bw) in [("cam1", bw1), ("cam2", bw2)] {
            body.push_str("<stream>\n<name>");
            body.push_str(stream);
            body.push_str("</name>\n<bw_video>");
            body.push_str(&format!("{}", bw));
            body.push_str("</bw_video>\n<nclients>1</nclients>\n</stream>\n");
        }
        body.push_str("</live>\n</application>\n");
    }
    body.push_str("</server>\n</rtmp>\n");
    body
}

#[test]
fn selection_takes_the_configured_application_and_key() {
    let body = two_app_document();
    let nginx = backend("live", "cam2");
    let rec = nginx.stats_from_body(&body).expect("record expected");
    assert_eq!(rec.name, "cam2");
    assert_eq!(rec.bw_video, 768000);

    // the same stream names under the other application are ignored
    let other = backend("other", "cam2").stats_from_body(&body).expect("record expected");
    assert_eq!(other.bw_video, 222000);

    let miss = backend("live", "cam3").stats_from_body(&body);
    assert!(miss.is_none());
    let miss_app = backend("gone", "cam1").stats_from_body(&body);
    assert!(miss_app.is_none());
}

#[test]
fn last_match_wins_on_duplicate_names() {
    let body = "<rtmp><server>\
        <application><name>live</name><live>\
        <stream><name>cam1</name><bw_video>100</bw_video></stream>\
        <stream><name>cam1</name><bw_video>200</bw_video></stream>\
        </live></application>\
        <application><name>live</name><live>\
        <stream><name>cam1</name><bw_video>300</bw_video></stream>\
        </live></application>\
        </server></rtmp>";
    let rec = backend("live", "cam1").stats_from_body(body).expect("record expected");
    assert_eq!(rec.bw_video, 300);
}

#[test]
fn malformed_documents_yield_absence() {
    for body in [
        "",
        "    ",
        "not xml at all",
        "<html><body>oops</body></html>",
        "<rtmp><server>",
        "<rtmp><server></server>",
        "<rtmp><server></sewer></rtmp>",
        "<rtmp><server><application><name>live</name></application></server></rtmp>",
        "<rtmp><server><application><name>live</name><live>\
         <stream><name>cam1</name></stream></live></application></server></rtmp>",
        "<rtmp><server><application><name>live</name><live>\
         <stream><name>cam1</name><bw_video>12a</bw_video></stream></live></application></server></rtmp>",
        "<rtmp><server><application><name>live</name><live>\
         <stream><name>cam1</name><bw_video>4294967296</bw_video></stream></live></application></server></rtmp>",
    ] {
        assert!(parse_stats(body).is_none(), "body accepted: {:?}", body);
        assert!(backend("live", "cam1").stats_from_body(body).is_none());
    }
}

#[test]
fn absence_from_a_failed_fetch_decides_offline() {
    // a protocol failure such as an HTTP 503 never reaches the parser: the
    // fetch yields absence, and absence classifies as offline
    let stats = backend("live", "cam1").stats_from_body("<html>503 Service Unavailable</html>");
    assert!(stats.is_none());
    let t = Thresholds { offline: None, low: Some(600) };
    assert_eq!(decide(&stats, &t), Decision::Offline);
}

#[test]
fn metadata_is_extracted_when_present() {
    let body = "<rtmp><server><application><name>live</name><live>\
        <stream><name>cam1</name><bw_video>512000</bw_video>\
        <meta><video><width>1920</width><height>1080</height>\
        <frame_rate>30</frame_rate><codec>H264</codec><profile>High</profile>\
        <compat>0</compat><level>4.1</level></video>\
        <audio><codec>AAC</codec><profile>LC</profile><channels>2</channels>\
        <sample_rate>48000</sample_rate></audio></meta>\
        </stream></live></application></server></rtmp>";
    let rec = backend("live", "cam1").stats_from_body(body).expect("record expected");
    let meta = rec.meta.expect("meta expected");
    assert_eq!(meta.video.width, 1920);
    assert_eq!(meta.video.height, 1080);
    assert_eq!(meta.video.frame_rate, 30);
    assert_eq!(meta.video.codec, "H264");
    assert_eq!(meta.video.profile.as_deref(), Some("High"));
    assert_eq!(meta.video.compat, Some(0));
    assert_eq!(meta.video.level.as_deref(), Some("4.1"));
    assert_eq!(meta.audio.codec, "AAC");
    assert_eq!(meta.audio.profile.as_deref(), Some("LC"));
    assert_eq!(meta.audio.channels, Some(2));
    assert_eq!(meta.audio.sample_rate, Some(48000));
}

#[test]
fn meta_is_optional_but_must_parse_when_present() {
    let no_meta = "<rtmp><server><application><name>live</name><live>\
        <stream><name>cam1</name><bw_video>1</bw_video></stream>\
        </live></application></server></rtmp>";
    let rec = backend("live", "cam1").stats_from_body(no_meta).expect("record expected");
    assert!(rec.meta.is_none());

    let bad_meta = "<rtmp><server><application><name>live</name><live>\
        <stream><name>cam1</name><bw_video>1</bw_video>\
        <meta><video><width>x</width></video></meta></stream>\
        </live></application></server></rtmp>";
    assert!(backend("live", "cam1").stats_from_body(bad_meta).is_none());
}

#[test]
fn empty_live_block_means_no_streams() {
    let body = "<rtmp><server><application><name>live</name>\
        <live></live></application></server></rtmp>";
    let stats = parse_stats(body).expect("document expected");
    assert!(stats.server.application[0].live.stream.is_none());
    assert!(backend("live", "cam1").stats_from_body(body).is_none());
}

#[test]
fn selection_on_a_built_document() {
    let body = two_app_document();
    let stats = parse_stats(&body).expect("document expected");
    assert_eq!(stats.server.application.len(), 2);
    let rec = select_stream(stats, "live", "cam1").expect("record expected");
    assert_eq!(rec.name, "cam1");
    assert_eq!(rec.bw_video, 512000);
}

#[test]
fn numeric_fields_read_strictly() {
    assert_eq!(parse_u32_text("512000"), Some(512000));
    assert_eq!(parse_u32_text("  512000\n"), Some(512000));
    assert_eq!(parse_u32_text("4294967295"), Some(4294967295));
    assert_eq!(parse_u32_text("4294967296"), None);
    assert_eq!(parse_u32_text("99999999999999999999"), None);
    assert_eq!(parse_u32_text(""), None);
    assert_eq!(parse_u32_text("   "), None);
    assert_eq!(parse_u32_text("-1"), None);
    assert_eq!(parse_u32_text("1 2"), None);
    assert_eq!(parse_u32_text("12a"), None);
    assert_eq!(parse_u32_text("0"), Some(0));
}

#[test]
fn self_closing_and_unknown_elements_are_tolerated() {
    let body = "<rtmp><server><uptime>100</uptime><application><name>live</name>\
        <extra/><live><stream><name>cam1</name><bw_video>2048</bw_video>\
        <publishing/><active/></stream></live></application></server></rtmp>";
    let rec = backend("live", "cam1").stats_from_body(body).expect("record expected");
    assert_eq!(rec.bw_video, 2048);
}
