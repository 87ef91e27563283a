//! Interface text in several languages.
//!
//! [`Message`] names each piece of interface text; [`t`] gives its text in a
//! [`Language`]. Texts with parameters hold `{0}`, `{1}` placeholders that the
//! caller fills in, so that each language keeps its own word order.

use vstd::prelude::*;

pub mod langs;

use crate::i18n::langs::{tr, tr_text};
use crate::text::{chars_of, replace, replace_chars, string_of};

verus! {

/// The languages the interface can be shown in.
#[derive(Debug, Clone, Copy, PartialEq, Eq, Structural)]
pub enum Language {
    Turkish,
    English,
    German,
    Russian,
    Spanish,
    Kazakh,
    Azerbaijani,
    Kyrgyz,
    Turkmen,
    Hindi,
    Chinese,
    Uzbek,
    Italian,
    Greek,
    Hungarian,
    Bulgarian,
    Portuguese,
}

impl Default for Language {
    /// Turkish.
    fn default() -> (r: Language)
        ensures
            r == Language::Turkish,
    {
        Language::Turkish
    }
}

/// The name of a language in that language.
pub open spec fn native_name(l: Language) -> Seq<char> {
    match l {
        Language::Turkish => "Türkçe"@,
        Language::English => "English"@,
        Language::German => "Deutsch"@,
        Language::Russian => "Русский"@,
        Language::Spanish => "Español"@,
        Language::Kazakh => "Қазақша"@,
        Language::Azerbaijani => "Azərbaycan"@,
        Language::Kyrgyz => "Кыргызча"@,
        Language::Turkmen => "Türkmençe"@,
        Language::Hindi => "हिन्दी"@,
        Language::Chinese => "中文"@,
        Language::Uzbek => "Oʻzbekcha"@,
        Language::Italian => "Italiano"@,
        Language::Greek => "Ελληνικά"@,
        Language::Hungarian => "Magyar"@,
        Language::Bulgarian => "Български"@,
        Language::Portuguese => "Português"@,
    }
}

/// Every language, in the order a language picker lists them.
pub open spec fn all_languages() -> Seq<Language> {
    seq![
        Language::Turkish,
        Language::English,
        Language::German,
        Language::Russian,
        Language::Spanish,
        Language::Kazakh,
        Language::Azerbaijani,
        Language::Kyrgyz,
        Language::Turkmen,
        Language::Hindi,
        Language::Chinese,
        Language::Uzbek,
        Language::Italian,
        Language::Greek,
        Language::Hungarian,
        Language::Bulgarian,
        Language::Portuguese,
    ]
}

impl Language {
    /// The name of the language in that language (its endonym).
    pub fn yerel_ad(&self) -> (r: &'static str)
        ensures
            r@ == native_name(*self),
    {
        match self {
            Language::Turkish => "Türkçe",
            Language::English => "English",
            Language::German => "Deutsch",
            Language::Russian => "Русский",
            Language::Spanish => "Español",
            Language::Kazakh => "Қазақша",
            Language::Azerbaijani => "Azərbaycan",
            Language::Kyrgyz => "Кыргызча",
            Language::Turkmen => "Türkmençe",
            Language::Hindi => "हिन्दी",
            Language::Chinese => "中文",
            Language::Uzbek => "Oʻzbekcha",
            Language::Italian => "Italiano",
            Language::Greek => "Ελληνικά",
            Language::Hungarian => "Magyar",
            Language::Bulgarian => "Български",
            Language::Portuguese => "Português",
        }
    }

    /// Every language, in the order a language picker lists them.
    pub fn hepsi() -> (r: &'static [Language])
        ensures
            r@ == all_languages(),
    {
        let r: &'static [Language] = &[
            Language::Turkish,
            Language::English,
            Language::German,
            Language::Russian,
            Language::Spanish,
            Language::Kazakh,
            Language::Azerbaijani,
            Language::Kyrgyz,
            Language::Turkmen,
            Language::Hindi,
            Language::Chinese,
            Language::Uzbek,
            Language::Italian,
            Language::Greek,
            Language::Hungarian,
            Language::Bulgarian,
            Language::Portuguese,
        ];
        proof {
            assert(r@ =~= all_languages());
        }
        r
    }
}

/// The pieces of interface text that have a translation.
#[derive(Debug, Clone, Copy, PartialEq, Eq, Structural)]
pub enum Message {
    AppName,
    Tools,
    PlaceholderVlan,
    PlaceholderConfigDiff,
    PlaceholderTopology,
    CheckingUpdates,
    UpdateRequired,
    VersionUnsupported,
    YourVersion,
    RequiredVersion,
    DownloadUpdate,
    DownloadInBrowser,
    UpdateCheckFailed,
    NewVersionAvailable,
    DeviceManager,
    AddDevice,
    DeviceName,
    IPAddress,
    Username,
    Password,
    SaveDevice,
    DeviceSaved,
    DeleteDevice,
    MasterPassword,
    EnterMasterPassword,
    Unlock,
    Unlocked,
    EncryptionError,
    BulkDeploy,
    SelectDevices,
    DeployCommands,
    DeploySuccess,
    Download,
    SubnetName,
    SubnetDescription,
    CidrInput,
    Input,
    SubnetMask,
    Network,
    Broadcast,
    FirstHost,
    LastHost,
    UsableHosts,
    ErrorPrefix,
    SettingsName,
    SettingsDescription,
    ThemeLabel,
    ThemeDark,
    ThemeLight,
    LanguageLabel,
    ManifestUrl,
    ManifestNote,
    Save,
    Saved,
    SaveFailedPrefix,
    FilePrefix,
    DiffName,
    DiffDescription,
    DiffOldConfig,
    DiffNewConfig,
    DiffCompare,
    DiffSaveToDb,
    SecName,
    SecDescription,
    SecAudit,
    SecNoIssues,
    SecFindings,
    SecLine,
    SecLevelCritical,
    SecLevelWarning,
    SecLevelInfo,
    SecTitleTelnetEnabled,
    SecTitleNoEnableSecret,
    SecTitleSnmpPublic,
    SecTitleSnmpPrivate,
    SecTitleNoPasswordEncryption,
    SecTitleHttpServerEnabled,
    SecTitleWeakPassword,
    SecTitleSnmpRw,
    SecTitleSshV1,
    SecTitleType7Password,
    SecTitleLinePasswordless,
    SecTitleNoLogging,
    SecTitleNoNtpAuth,
    SecAdviceTelnetEnabled,
    SecAdviceNoEnableSecret,
    SecAdviceSnmpPublic,
    SecAdviceSnmpPrivate,
    SecAdviceNoPasswordEncryption,
    SecAdviceHttpServerEnabled,
    SecAdviceWeakPassword,
    SecAdviceSnmpRw,
    SecAdviceSshV1,
    SecAdviceType7Password,
    SecAdviceLinePasswordless,
    SecAdviceNoLogging,
    SecAdviceNoNtpAuth,
    SshName,
    SshDescription,
    SshIp,
    SshPort,
    SshUser,
    SshPass,
    SshConnect,
    SshConnectingLabel,
    SshSuccess,
    VlanName,
    VlanDescription,
    VlanNetworkPrefix,
    VlanAddDepartment,
    VlanDeptName,
    VlanId,
    VlanHosts,
    VlanGenerate,
    VlanResult,
    TopologyName,
    TopologyDescription,
    TopologyConfigInput,
    TopologyParse,
    TopologyInterface,
    TopologyStatus,
    TopologyIp,
    TopologyVlan,
}

/// The text of a message in a language. The project holds one text table,
/// the Turkish one, and every language reads it.
pub open spec fn message_text(dil: Language, mesaj: Message) -> Seq<char> {
    tr_text(mesaj)
}

/// The text of `mesaj` in the language `dil`.
pub fn t(dil: Language, mesaj: Message) -> (r: &'static str)
    ensures
        r@ == message_text(dil, mesaj),
{
    let _ = dil;
    tr(mesaj)
}

/// A text given inline in English and Turkish: the Turkish one for Turkish,
/// the English one for every other language.
pub fn text(dil: Language, english: &'static str, turkish: &'static str) -> (r: &'static str)
    ensures
        r@ == (if dil == Language::Turkish {
            turkish@
        } else {
            english@
        }),
{
    match dil {
        Language::Turkish => turkish,
        _ => english,
    }
}

/// The notice of an optional update: the message with the latest version
/// for `{0}` and the running version for `{1}`.
pub open spec fn update_notice_text(dil: Language, latest: Seq<char>, current: Seq<char>) -> Seq<
    char,
> {
    replace(
        replace(message_text(dil, Message::NewVersionAvailable), "{0}"@, latest),
        "{1}"@,
        current,
    )
}

/// The notice shown when a newer, optional release exists.
pub fn update_notice(dil: Language, latest: &str, current: &str) -> (r: String)
    ensures
        r@ == update_notice_text(dil, latest@, current@),
{
    proof {
        reveal_strlit("{0}");
        reveal_strlit("{1}");
    }
    let m = chars_of(t(dil, Message::NewVersionAvailable));
    let p0 = chars_of("{0}");
    let v0 = chars_of(latest);
    let a = replace_chars(m.as_slice(), p0.as_slice(), v0.as_slice());
    let p1 = chars_of("{1}");
    let v1 = chars_of(current);
    let b = replace_chars(a.as_slice(), p1.as_slice(), v1.as_slice());
    string_of(b.as_slice())
}

} // verus!
