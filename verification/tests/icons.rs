use ferrocopy::dot::{icon_pattern, pattern_for_extension, pattern_of_extension, IconPattern, StarColor};

#[test]
fn extension_picks_the_pattern_ignoring_case() {
    assert_eq!(icon_pattern("report.pdf"), IconPattern::Document);
    assert_eq!(icon_pattern("REPORT.PDF"), IconPattern::Document);
    assert_eq!(icon_pattern("photo.JPeG"), IconPattern::Image);
    assert_eq!(icon_pattern("clip.mkv"), IconPattern::Video);
    assert_eq!(icon_pattern("song.flac"), IconPattern::Audio);
    assert_eq!(icon_pattern("backup.tar.gz"), IconPattern::Archive);
    assert_eq!(icon_pattern("deck.pptx"), IconPattern::Slides);
    assert_eq!(icon_pattern("table.csv"), IconPattern::Sheet);
    assert_eq!(icon_pattern("setup.msi"), IconPattern::Program);
    assert_eq!(icon_pattern("notes.txt"), IconPattern::Plain);
}

#[test]
fn files_without_an_extension_get_the_plain_dot() {
    assert_eq!(icon_pattern("README"), IconPattern::Plain);
    assert_eq!(icon_pattern(".pdf"), IconPattern::Plain);
    assert_eq!(icon_pattern(""), IconPattern::Plain);
    assert_eq!(pattern_of_extension(None), IconPattern::Plain);
    assert_eq!(pattern_of_extension(Some("Wav".to_string())), IconPattern::Audio);
}

#[test]
fn extension_table_is_exact() {
    assert_eq!(pattern_for_extension("webp"), IconPattern::Image);
    assert_eq!(pattern_for_extension("7z"), IconPattern::Archive);
    assert_eq!(pattern_for_extension("dll"), IconPattern::Program);
    assert_eq!(pattern_for_extension("PDF"), IconPattern::Plain);
    assert_eq!(pattern_for_extension("pd"), IconPattern::Plain);
}

#[test]
fn patterns_have_their_colours_and_dots() {
    assert_eq!(IconPattern::Document.color(), StarColor::Red);
    assert_eq!(IconPattern::Image.color(), StarColor::Blue);
    assert_eq!(IconPattern::Video.color(), StarColor::Gold);
    assert_eq!(IconPattern::Sheet.color(), StarColor::Green);
    assert_eq!(IconPattern::Plain.color(), StarColor::White);
    assert_eq!(IconPattern::Archive.dot_count(), 9);
    assert_eq!(IconPattern::Video.dot_count(), 6);
    assert_eq!(IconPattern::Plain.dot_count(), 1);
    assert_eq!(StarColor::Gold.rgb(), (255, 200, 80));
    assert_eq!(StarColor::White.rgb(), (220, 230, 255));
}

#[test]
fn upper_case_photo_gets_the_five_dot_image() {
    let p = icon_pattern("photo.JPG");
    assert_eq!(p, IconPattern::Image);
    assert_eq!(p.dot_count(), 5);
    assert_eq!(icon_pattern("a..mp3"), IconPattern::Audio);
    assert_eq!(icon_pattern("song."), IconPattern::Plain);
    assert_eq!(icon_pattern("..mp3"), IconPattern::Audio);
}
