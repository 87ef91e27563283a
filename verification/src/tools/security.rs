//! How the security screen words a finding: its title and its advice in
//! the chosen language.

use vstd::prelude::*;

use crate::i18n::{message_text, t, text, Language, Message};
use crate::network::security::FindingCode;

verus! {

/// The title of a finding in a language.
pub open spec fn finding_title(dil: Language, code: FindingCode) -> Seq<char> {
    match code {
        FindingCode::TelnetEnabled => message_text(dil, Message::SecTitleTelnetEnabled),
        FindingCode::NoEnableSecret => message_text(dil, Message::SecTitleNoEnableSecret),
        FindingCode::SnmpPublic => message_text(dil, Message::SecTitleSnmpPublic),
        FindingCode::SnmpPrivate => message_text(dil, Message::SecTitleSnmpPrivate),
        FindingCode::NoPasswordEncryption => message_text(dil, Message::SecTitleNoPasswordEncryption),
        FindingCode::HttpServerEnabled => message_text(dil, Message::SecTitleHttpServerEnabled),
        FindingCode::WeakPassword => message_text(dil, Message::SecTitleWeakPassword),
        FindingCode::SnmpRw => message_text(dil, Message::SecTitleSnmpRw),
        FindingCode::SshV1 => message_text(dil, Message::SecTitleSshV1),
        FindingCode::Type7Password => message_text(dil, Message::SecTitleType7Password),
        FindingCode::LinePasswordless => message_text(dil, Message::SecTitleLinePasswordless),
        FindingCode::NoLogging => message_text(dil, Message::SecTitleNoLogging),
        FindingCode::NoNtpAuth => message_text(dil, Message::SecTitleNoNtpAuth),
        FindingCode::ExecTimeoutDisabled => if dil == Language::Turkish {
            "Oturum zaman aşımı kapalı"@
        } else {
            "Session timeout disabled"@
        },
        FindingCode::NoAaaNewModel => if dil == Language::Turkish {
            "AAA etkin değil"@
        } else {
            "AAA not enabled"@
        },
        FindingCode::NoLoginBanner => if dil == Language::Turkish {
            "Giriş banner'ı yok"@
        } else {
            "No login banner"@
        },
        FindingCode::WeakEnableSecretType => if dil == Language::Turkish {
            "Zayıf enable secret tipi"@
        } else {
            "Weak enable secret type"@
        },
    }
}

/// The title of a finding in a language.
pub fn bulgu_baslik(dil: Language, code: FindingCode) -> (r: &'static str)
    ensures
        r@ == finding_title(dil, code),
{
    match code {
        FindingCode::TelnetEnabled => t(dil, Message::SecTitleTelnetEnabled),
        FindingCode::NoEnableSecret => t(dil, Message::SecTitleNoEnableSecret),
        FindingCode::SnmpPublic => t(dil, Message::SecTitleSnmpPublic),
        FindingCode::SnmpPrivate => t(dil, Message::SecTitleSnmpPrivate),
        FindingCode::NoPasswordEncryption => t(dil, Message::SecTitleNoPasswordEncryption),
        FindingCode::HttpServerEnabled => t(dil, Message::SecTitleHttpServerEnabled),
        FindingCode::WeakPassword => t(dil, Message::SecTitleWeakPassword),
        FindingCode::SnmpRw => t(dil, Message::SecTitleSnmpRw),
        FindingCode::SshV1 => t(dil, Message::SecTitleSshV1),
        FindingCode::Type7Password => t(dil, Message::SecTitleType7Password),
        FindingCode::LinePasswordless => t(dil, Message::SecTitleLinePasswordless),
        FindingCode::NoLogging => t(dil, Message::SecTitleNoLogging),
        FindingCode::NoNtpAuth => t(dil, Message::SecTitleNoNtpAuth),
        FindingCode::ExecTimeoutDisabled => text(
            dil,
            "Session timeout disabled",
            "Oturum zaman aşımı kapalı",
        ),
        FindingCode::NoAaaNewModel => text(
            dil,
            "AAA not enabled",
            "AAA etkin değil",
        ),
        FindingCode::NoLoginBanner => text(
            dil,
            "No login banner",
            "Giriş banner'ı yok",
        ),
        FindingCode::WeakEnableSecretType => text(
            dil,
            "Weak enable secret type",
            "Zayıf enable secret tipi",
        ),
    }
}

/// The advice for a finding in a language.
pub open spec fn finding_advice(dil: Language, code: FindingCode) -> Seq<char> {
    match code {
        FindingCode::TelnetEnabled => message_text(dil, Message::SecAdviceTelnetEnabled),
        FindingCode::NoEnableSecret => message_text(dil, Message::SecAdviceNoEnableSecret),
        FindingCode::SnmpPublic => message_text(dil, Message::SecAdviceSnmpPublic),
        FindingCode::SnmpPrivate => message_text(dil, Message::SecAdviceSnmpPrivate),
        FindingCode::NoPasswordEncryption => message_text(dil, Message::SecAdviceNoPasswordEncryption),
        FindingCode::HttpServerEnabled => message_text(dil, Message::SecAdviceHttpServerEnabled),
        FindingCode::WeakPassword => message_text(dil, Message::SecAdviceWeakPassword),
        FindingCode::SnmpRw => message_text(dil, Message::SecAdviceSnmpRw),
        FindingCode::SshV1 => message_text(dil, Message::SecAdviceSshV1),
        FindingCode::Type7Password => message_text(dil, Message::SecAdviceType7Password),
        FindingCode::LinePasswordless => message_text(dil, Message::SecAdviceLinePasswordless),
        FindingCode::NoLogging => message_text(dil, Message::SecAdviceNoLogging),
        FindingCode::NoNtpAuth => message_text(dil, Message::SecAdviceNoNtpAuth),
        FindingCode::ExecTimeoutDisabled => if dil == Language::Turkish {
            "'exec-timeout 0 0' oturumu hiç kapatmaz. Bir zaman aşımı verin, örn: 'exec-timeout 10 0'."@
        } else {
            "'exec-timeout 0 0' keeps sessions open forever. Set a timeout, e.g. 'exec-timeout 10 0'."@
        },
        FindingCode::NoAaaNewModel => if dil == Language::Turkish {
            "'aaa new-model' yok. Merkezi kimlik doğrulama/kayıt için AAA'yı etkinleştirin."@
        } else {
            "No 'aaa new-model'. Enable AAA for centralized authentication and accounting."@
        },
        FindingCode::NoLoginBanner => if dil == Language::Turkish {
            "Banner yok. Yetkisiz erişime karşı yasal bir 'banner login/motd' uyarısı ekleyin."@
        } else {
            "No banner configured. Add a legal 'banner login/motd' warning against unauthorized access."@
        },
        FindingCode::WeakEnableSecretType => if dil == Language::Turkish {
            "'enable secret 5' MD5'tir. Tip 8 (PBKDF2) veya tip 9 (scrypt) tercih edin."@
        } else {
            "'enable secret 5' is MD5. Prefer type 8 (PBKDF2) or type 9 (scrypt)."@
        },
    }
}

/// The advice for a finding in a language.
pub fn bulgu_oneri(dil: Language, code: FindingCode) -> (r: &'static str)
    ensures
        r@ == finding_advice(dil, code),
{
    match code {
        FindingCode::TelnetEnabled => t(dil, Message::SecAdviceTelnetEnabled),
        FindingCode::NoEnableSecret => t(dil, Message::SecAdviceNoEnableSecret),
        FindingCode::SnmpPublic => t(dil, Message::SecAdviceSnmpPublic),
        FindingCode::SnmpPrivate => t(dil, Message::SecAdviceSnmpPrivate),
        FindingCode::NoPasswordEncryption => t(dil, Message::SecAdviceNoPasswordEncryption),
        FindingCode::HttpServerEnabled => t(dil, Message::SecAdviceHttpServerEnabled),
        FindingCode::WeakPassword => t(dil, Message::SecAdviceWeakPassword),
        FindingCode::SnmpRw => t(dil, Message::SecAdviceSnmpRw),
        FindingCode::SshV1 => t(dil, Message::SecAdviceSshV1),
        FindingCode::Type7Password => t(dil, Message::SecAdviceType7Password),
        FindingCode::LinePasswordless => t(dil, Message::SecAdviceLinePasswordless),
        FindingCode::NoLogging => t(dil, Message::SecAdviceNoLogging),
        FindingCode::NoNtpAuth => t(dil, Message::SecAdviceNoNtpAuth),
        FindingCode::ExecTimeoutDisabled => text(
            dil,
            "'exec-timeout 0 0' keeps sessions open forever. Set a timeout, e.g. 'exec-timeout 10 0'.",
            "'exec-timeout 0 0' oturumu hiç kapatmaz. Bir zaman aşımı verin, örn: 'exec-timeout 10 0'.",
        ),
        FindingCode::NoAaaNewModel => text(
            dil,
            "No 'aaa new-model'. Enable AAA for centralized authentication and accounting.",
            "'aaa new-model' yok. Merkezi kimlik doğrulama/kayıt için AAA'yı etkinleştirin.",
        ),
        FindingCode::NoLoginBanner => text(
            dil,
            "No banner configured. Add a legal 'banner login/motd' warning against unauthorized access.",
            "Banner yok. Yetkisiz erişime karşı yasal bir 'banner login/motd' uyarısı ekleyin.",
        ),
        FindingCode::WeakEnableSecretType => text(
            dil,
            "'enable secret 5' is MD5. Prefer type 8 (PBKDF2) or type 9 (scrypt).",
            "'enable secret 5' MD5'tir. Tip 8 (PBKDF2) veya tip 9 (scrypt) tercih edin.",
        ),
    }
}

} // verus!
