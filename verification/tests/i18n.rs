use oxidenms::i18n::{t, text, Language, Message};
use oxidenms::network::security::FindingCode;
use oxidenms::tools::security::{bulgu_baslik, bulgu_oneri};

#[test]
fn languages_in_picker_order() {
    let all = Language::hepsi();
    assert_eq!(all.len(), 17);
    assert_eq!(all[0], Language::Turkish);
    assert_eq!(all[16], Language::Portuguese);
    assert_eq!(Language::default(), Language::Turkish);
}

#[test]
fn native_names() {
    assert_eq!(Language::Turkish.yerel_ad(), "Türkçe");
    assert_eq!(Language::German.yerel_ad(), "Deutsch");
    assert_eq!(Language::Chinese.yerel_ad(), "中文");
}

#[test]
fn turkish_texts() {
    assert_eq!(t(Language::Turkish, Message::Save), "Kaydet");
    assert_eq!(t(Language::Turkish, Message::SecFindings), "{0} bulgu bulundu:");
    assert_eq!(
        t(Language::Turkish, Message::NewVersionAvailable),
        "Yeni sürüm mevcut: v{0} (sizdeki v{1})."
    );
}

#[test]
fn every_language_reads_the_turkish_table() {
    assert_eq!(t(Language::English, Message::Save), t(Language::Turkish, Message::Save));
}

#[test]
fn inline_text_picks_by_language() {
    assert_eq!(text(Language::Turkish, "Stop", "Durdur"), "Durdur");
    assert_eq!(text(Language::English, "Stop", "Durdur"), "Stop");
}

#[test]
fn finding_titles_and_advice() {
    assert_eq!(bulgu_baslik(Language::Turkish, FindingCode::TelnetEnabled), "Telnet etkin");
    assert_eq!(bulgu_baslik(Language::English, FindingCode::NoAaaNewModel), "AAA not enabled");
    assert_eq!(bulgu_baslik(Language::Turkish, FindingCode::NoAaaNewModel), "AAA etkin değil");
    assert!(bulgu_oneri(Language::English, FindingCode::WeakEnableSecretType).contains("MD5"));
}

#[test]
fn update_notice_fills_versions() {
    assert_eq!(
        oxidenms::i18n::update_notice(Language::Turkish, "1.3.0", "1.0.5"),
        "Yeni sürüm mevcut: v1.3.0 (sizdeki v1.0.5)."
    );
}
