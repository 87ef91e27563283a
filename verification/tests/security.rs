use oxidenms::network::security::satir_kurallari;
use oxidenms::network::security::{satir_adimi, TaramaDurumu};
use oxidenms::network::security::{
    audit, summarize, Category, Finding, FindingCode, Level,
};

fn kod_var(bulgular: &[Finding], code: FindingCode) -> bool {
    bulgular.iter().any(|b| b.code == code)
}

#[test]
fn telnet_yakalanir() {
    let cfg = "line vty 0 4\n transport input telnet\n password gizli\n";
    assert!(kod_var(&audit(cfg), FindingCode::TelnetEnabled));
}

#[test]
fn enable_password_secret_yoksa_uyarir() {
    let cfg = "enable password gizli123\n";
    assert!(kod_var(&audit(cfg), FindingCode::NoEnableSecret));
}

#[test]
fn snmp_public_kritik() {
    assert!(kod_var(
        &audit("snmp-server community public RO\n"),
        FindingCode::SnmpPublic
    ));
}

#[test]
fn snmp_rw_uyari() {
    assert!(kod_var(
        &audit("snmp-server community gizli123 RW\n"),
        FindingCode::SnmpRw
    ));
}

#[test]
fn zayif_parola_yakalanir() {
    assert!(kod_var(
        &audit("username admin password cisco\n"),
        FindingCode::WeakPassword
    ));
}

#[test]
fn ssh_v1_kritik() {
    assert!(kod_var(&audit("ip ssh version 1\n"), FindingCode::SshV1));
}

#[test]
fn tip7_parola_uyari() {
    assert!(kod_var(
        &audit("enable password 7 08701E1D0A18\n"),
        FindingCode::Type7Password
    ));
}

#[test]
fn parolasiz_vty_kritik() {
    let cfg = "line vty 0 4\n transport input ssh\n login\n!\n";
    assert!(kod_var(&audit(cfg), FindingCode::LinePasswordless));
}

#[test]
fn parolali_vty_temiz() {
    let cfg = "line vty 0 4\n password guclU123\n login\n!\n";
    assert!(!kod_var(&audit(cfg), FindingCode::LinePasswordless));
}

#[test]
fn ntp_auth_yoksa_uyari() {
    assert!(kod_var(&audit("ntp server 192.0.2.1\n"), FindingCode::NoNtpAuth));
}

#[test]
fn logging_yoksa_bilgi() {
    assert!(kod_var(&audit("hostname R1\n"), FindingCode::NoLogging));
}

#[test]
fn exec_timeout_kapali_uyari() {
    let cfg = "line vty 0 4\n exec-timeout 0 0\n password guclU123\n";
    assert!(kod_var(&audit(cfg), FindingCode::ExecTimeoutDisabled));
}

#[test]
fn aaa_yoksa_bilgi() {
    assert!(kod_var(&audit("hostname R1\n"), FindingCode::NoAaaNewModel));
}

#[test]
fn banner_yoksa_bilgi() {
    assert!(kod_var(&audit("hostname R1\n"), FindingCode::NoLoginBanner));
}

#[test]
fn banner_varsa_bilgi_yok() {
    let cfg = "banner motd ^C Yetkisiz erisim yasaktir ^C\n";
    assert!(!kod_var(&audit(cfg), FindingCode::NoLoginBanner));
}

#[test]
fn zayif_enable_secret_tipi_bilgi() {
    assert!(kod_var(
        &audit("enable secret 5 $1$xY9$abcdef\n"),
        FindingCode::WeakEnableSecretType
    ));
}

#[test]
fn guclu_enable_secret_tipi_temiz() {
    assert!(!kod_var(
        &audit("enable secret 9 $9$abcdef\n"),
        FindingCode::WeakEnableSecretType
    ));
}

#[test]
fn sertlestirilmis_config_temiz() {
    let cfg = "\
hostname CORE1
aaa new-model
service password-encryption
enable secret 9 $9$xY9$abcdef
username netadmin secret 9 $9$zZ8$ghijkl
ip ssh version 2
logging host 192.0.2.5
ntp authenticate
banner login ^C Authorized access only ^C
line vty 0 4
 exec-timeout 10 0
 transport input ssh
 login local
";
    let b = audit(cfg);
    assert!(
        !b.iter().any(|x| x.level == Level::Critical),
        "kritik olmamalı: {b:?}"
    );
    assert!(b.is_empty(), "temiz config'te bulgu olmamalı: {b:?}");
}

#[test]
fn temiz_config_skor_100_grade_a() {
    let s = summarize(&[]);
    assert_eq!(s.score, 100);
    assert_eq!(s.grade, "A");
    assert_eq!(s.total, 0);
}

#[test]
fn tek_kritik_ceza_dusurur() {
    let f = vec![Finding {
        level: Level::Critical,
        code: FindingCode::TelnetEnabled,
        line: None,
        detail: None,
    }];
    let s = summarize(&f);
    assert_eq!(s.score, 85);
    assert_eq!(s.grade, "B");
    assert_eq!(s.critical, 1);
}

#[test]
fn cok_bulgu_taban_sifir() {
    let f: Vec<Finding> = (0..7)
        .map(|_| Finding {
            level: Level::Critical,
            code: FindingCode::TelnetEnabled,
            line: None,
            detail: None,
        })
        .collect();
    let s = summarize(&f);
    assert_eq!(s.score, 0);
    assert_eq!(s.grade, "F");
}

#[test]
fn kategori_eslemesi_dogru() {
    assert_eq!(FindingCode::TelnetEnabled.category(), Category::Access);
    assert_eq!(FindingCode::SnmpPublic.category(), Category::Snmp);
    assert_eq!(FindingCode::NoLogging.category(), Category::Logging);
    assert_eq!(FindingCode::WeakPassword.category(), Category::Authentication);
    assert_eq!(FindingCode::HttpServerEnabled.category(), Category::Services);
}

#[test]
fn rules_ignore_case() {
    let cfg = "LINE VTY 0 4\n TRANSPORT INPUT TELNET\n PASSWORD Gizli\n";
    assert!(kod_var(&audit(cfg), FindingCode::TelnetEnabled));
}

#[test]
fn line_rules_use_the_given_lowercase_text() {
    let line: Vec<char> = "Transport input TELNET".chars().collect();
    let lower: Vec<char> = "transport input telnet".chars().collect();
    let mut found = Vec::new();
    satir_kurallari(&mut found, &line, &lower, 7);
    assert!(kod_var(&found, FindingCode::TelnetEnabled));
    assert_eq!(found[0].line, Some(7));
    let mut none = Vec::new();
    satir_kurallari(&mut none, &line, &line, 7);
    assert!(!kod_var(&none, FindingCode::TelnetEnabled));
}

fn karakterler(s: &str) -> Vec<char> {
    s.chars().collect()
}

#[test]
fn tarama_adimi_hat_blogunu_kapatir() {
    let mut st = TaramaDurumu::new();
    assert!(st.bulgular().is_empty());
    let h1 = karakterler("line vty 0 4");
    let h2 = karakterler(" transport input ssh");
    satir_adimi(&mut st, &h1, &karakterler("line vty 0 4"), 1);
    satir_adimi(&mut st, &h2, &karakterler("transport input ssh"), 2);
    let bulgular = st.bitir();
    let hat = bulgular
        .iter()
        .find(|b| b.code == FindingCode::LinePasswordless)
        .expect("open line block without password is reported at the end");
    assert_eq!(hat.line, Some(1));
    assert_eq!(hat.detail.as_deref(), Some("line vty 0 4"));
}

#[test]
fn tarama_adimi_kucuk_harfli_metne_bakar() {
    // The rules read the lowercase text given with the line, not the raw one.
    let mut st = TaramaDurumu::new();
    let h1 = karakterler("line vty 0 4");
    let h2 = karakterler(" transport input ssh");
    satir_adimi(&mut st, &h1, &karakterler("LINE VTY 0 4"), 1);
    satir_adimi(&mut st, &h2, &karakterler("TRANSPORT INPUT SSH"), 2);
    let bulgular = st.bitir();
    assert!(!kod_var(&bulgular, FindingCode::LinePasswordless));
}

#[test]
fn tarama_adimi_parola_ile_bulgu_vermez() {
    let mut st = TaramaDurumu::new();
    for (i, satir) in ["line vty 0 4", " password gizli", " login"].iter().enumerate() {
        let ham = karakterler(satir);
        let lc = karakterler(satir.trim());
        satir_adimi(&mut st, &ham, &lc, i + 1);
    }
    let bulgular = st.bitir();
    assert!(!kod_var(&bulgular, FindingCode::LinePasswordless));
    // The whole-configuration rules still report what the text lacks.
    assert!(kod_var(&bulgular, FindingCode::NoAaaNewModel));
}

#[test]
fn duzeltme_satiri_kendi_bulgusunu_kapatir() {
    for code in [
        FindingCode::NoPasswordEncryption,
        FindingCode::NoLogging,
        FindingCode::NoNtpAuth,
        FindingCode::NoAaaNewModel,
        FindingCode::NoLoginBanner,
        FindingCode::SshV1,
    ] {
        let cfg = format!("hostname r1\n{}\nntp server 10.0.0.1\n", code.remediation());
        assert!(!kod_var(&audit(&cfg), code), "{:?}", code);
    }
    // Without the remediation line the whole-configuration findings are raised.
    let bulgular = audit("hostname r1\nntp server 10.0.0.1\n");
    assert!(kod_var(&bulgular, FindingCode::NoAaaNewModel));
    assert!(kod_var(&bulgular, FindingCode::NoNtpAuth));
    assert!(kod_var(&bulgular, FindingCode::NoLoginBanner));
}

#[test]
fn buyuk_harfli_ascii_satir_kucultulerek_okunur() {
    assert!(!kod_var(&audit("AAA NEW-MODEL\n"), FindingCode::NoAaaNewModel));
    assert!(kod_var(&audit("IP SSH VERSION 1\n"), FindingCode::SshV1));
}

#[test]
fn ozet_ceza_sayilardan_hesaplanir() {
    let cfg = "line vty 0 4\n transport input telnet\n";
    let s = summarize(&audit(cfg));
    assert_eq!(s.total, s.critical + s.warning + s.info);
    let penalty = s.critical * 15 + s.warning * 7 + s.info * 2;
    assert_eq!(s.score as usize, 100usize.saturating_sub(penalty));
}
