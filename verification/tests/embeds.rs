use tendril::embeds::{
    format_yt_url, transform_audio_url, transform_cp_url, transform_cs_url,
    transform_spotify_url, transform_vimeo_url, transform_youtube_url,
};

const PLAYER: &str = r#"<iframe title="Video player" frameborder="0" allow="accelerometer; autoplay; clipboard-write; encrypted-media; gyroscope; picture-in-picture" allowfullscreen"#;

#[test]
fn transforms_youtube_urls_to_embedable() {
    let link = "https://youtube.com/watch?v=giEnkiRHJ9Y";
    let final_string = r#"<iframe title="Video player" frameborder="0" allow="accelerometer; autoplay; clipboard-write; encrypted-media; gyroscope; picture-in-picture" allowfullscreen src="https://youtube.com/embed/giEnkiRHJ9Y"></iframe>"#;
    assert!(final_string.to_string() == transform_youtube_url(link));
}

#[test]
fn transforms_vimeo_urls_to_embedable() {
    let link = "https://vimeo.com/665036978#t=20s";
    let final_string = r#"<iframe title="Video player" frameborder="0" allow="accelerometer; autoplay; clipboard-write; encrypted-media; gyroscope; picture-in-picture" allowfullscreen src="https://player.vimeo.com/video/665036978#t=20s"></iframe>"#;
    assert!(final_string.to_string() == transform_vimeo_url(link));
}

#[test]
fn transforms_spotify_urls_to_embedable() {
    let link = "https://open.spotify.com/track/3YD9EehnGOf88rGSZFrnHg?si=8c669e6880f54c88";
    let final_string = r#"<iframe title="Video player" frameborder="0" allow="accelerometer; autoplay; clipboard-write; encrypted-media; gyroscope; picture-in-picture" allowfullscreen src="https://open.spotify.com/embed/track/3YD9EehnGOf88rGSZFrnHg?si=8c669e6880f54c88"></iframe>"#;
    assert!(final_string.to_string() == transform_spotify_url(link));
}

#[test]
fn transforms_codepen_urls_to_embedable() {
    let link = "https://codepen.io/P1N2O/pen/pyBNzX";
    let final_string = r#"<iframe frameborder="0" title="CodePen" scrolling="no" allowtransparency="true" allowfullscreen="true" loading="lazy" src="https://codepen.io/P1N2O/embed/pyBNzX"></iframe>"#;
    assert!(final_string.to_string() == transform_cp_url(link));
}

#[test]
fn youtube_watch_link_with_extra_params_keeps_them_as_query() {
    let out = transform_youtube_url("https://youtube.com/watch?v=abc&t=10&list=x");
    assert_eq!(out, format!("{} src=\"https://youtube.com/embed/abc?t=10&list=x\"></iframe>", PLAYER));
}

#[test]
fn youtube_short_link_becomes_embed() {
    let out = transform_youtube_url("https://youtu.be/abc?t=5");
    assert_eq!(out, format!("{} src=\"https://youtube.com/embed/abc?t=5\"></iframe>", PLAYER));
}

#[test]
fn youtube_embed_link_stays() {
    let out = transform_youtube_url("https://youtube.com/embed/abc");
    assert_eq!(out, format_yt_url("https://youtube.com/embed/abc"));
}

#[test]
fn vimeo_player_link_stays() {
    let out = transform_vimeo_url("https://player.vimeo.com/video/1");
    assert_eq!(out, format!("{} src=\"https://player.vimeo.com/video/1\"></iframe>", PLAYER));
}

#[test]
fn spotify_embed_link_stays() {
    let out = transform_spotify_url("https://open.spotify.com/embed/track/1");
    assert_eq!(out, format!("{} src=\"https://open.spotify.com/embed/track/1\"></iframe>", PLAYER));
}

#[test]
fn codepen_embed_link_stays() {
    let out = transform_cp_url("https://codepen.io/a/embed/b");
    assert!(out.ends_with(" src=\"https://codepen.io/a/embed/b\"></iframe>"));
}

#[test]
fn codesandbox_share_link_becomes_embed() {
    let out = transform_cs_url("https://codesandbox.io/s/abc");
    assert!(out.starts_with("<iframe frameborder=\"0\" title=\"Code Sandbox\""));
    assert!(out.ends_with(" src=\"https://codesandbox.io/embed/abc\"></iframe>"));
}

#[test]
fn audio_link_becomes_player() {
    assert_eq!(
        transform_audio_url("song.mp3"),
        "<audio src=\"song.mp3\" controls></audio>"
    );
}
