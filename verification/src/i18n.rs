//! The interface's texts in each language.
use vstd::prelude::*;

use crate::config::Language;
use crate::text::{
    append_str, chars_of, dec_text, push_decimal, range_pieces, starts_with_str, str_eq,
    string_of, string_of_range, ws_token_ranges, ws_tokens,
};

verus! {

/// Every text of the interface, in one language.
#[derive(Debug, Clone, Copy)]
pub struct Texts {
    pub inactive: &'static str,
    pub service_tooltip: &'static str,
    pub network_title: &'static str,
    pub network_description: &'static str,
    pub default_connection_title: &'static str,
    pub detecting: &'static str,
    pub exception_network_title: &'static str,
    pub interfaces_loading: &'static str,
    pub rules_title: &'static str,
    pub rules_description: &'static str,
    pub add_address_title: &'static str,
    pub address_placeholder: &'static str,
    pub add_rule_tooltip: &'static str,
    pub no_rules_title: &'static str,
    pub no_rules_subtitle: &'static str,
    pub route_test_title: &'static str,
    pub route_test_description: &'static str,
    pub test_address_title: &'static str,
    pub test_placeholder: &'static str,
    pub route_test_tooltip: &'static str,
    pub language_title: &'static str,
    pub language_description: &'static str,
    pub language_row_title: &'static str,
    pub language_row_subtitle: &'static str,
    pub default_not_found: &'static str,
    pub no_interfaces: &'static str,
    pub exception_subtitle: &'static str,
    pub exception_select_prompt: &'static str,
    pub activation_failed: &'static str,
    pub activation_failed_toast: &'static str,
    pub unselected: &'static str,
    pub address_word: &'static str,
    pub delete_rule_tooltip: &'static str,
    pub resolving: &'static str,
    pub tray_description: &'static str,
    pub tray_show: &'static str,
    pub tray_quit: &'static str,
    pub tray_tooltip: &'static str,
    pub routing_label: &'static str,
    pub settings_title: &'static str,
    pub menu_reset: &'static str,
    pub reset_dialog_heading: &'static str,
    pub reset_dialog_body: &'static str,
    pub reset_dialog_confirm: &'static str,
    pub reset_dialog_cancel: &'static str,
    pub used_network: &'static str,
    pub expected_network: &'static str,
    pub probe_samples: &'static str,
}

pub struct TextsView {
    pub inactive: Seq<char>,
    pub service_tooltip: Seq<char>,
    pub network_title: Seq<char>,
    pub network_description: Seq<char>,
    pub default_connection_title: Seq<char>,
    pub detecting: Seq<char>,
    pub exception_network_title: Seq<char>,
    pub interfaces_loading: Seq<char>,
    pub rules_title: Seq<char>,
    pub rules_description: Seq<char>,
    pub add_address_title: Seq<char>,
    pub address_placeholder: Seq<char>,
    pub add_rule_tooltip: Seq<char>,
    pub no_rules_title: Seq<char>,
    pub no_rules_subtitle: Seq<char>,
    pub route_test_title: Seq<char>,
    pub route_test_description: Seq<char>,
    pub test_address_title: Seq<char>,
    pub test_placeholder: Seq<char>,
    pub route_test_tooltip: Seq<char>,
    pub language_title: Seq<char>,
    pub language_description: Seq<char>,
    pub language_row_title: Seq<char>,
    pub language_row_subtitle: Seq<char>,
    pub default_not_found: Seq<char>,
    pub no_interfaces: Seq<char>,
    pub exception_subtitle: Seq<char>,
    pub exception_select_prompt: Seq<char>,
    pub activation_failed: Seq<char>,
    pub activation_failed_toast: Seq<char>,
    pub unselected: Seq<char>,
    pub address_word: Seq<char>,
    pub delete_rule_tooltip: Seq<char>,
    pub resolving: Seq<char>,
    pub tray_description: Seq<char>,
    pub tray_show: Seq<char>,
    pub tray_quit: Seq<char>,
    pub tray_tooltip: Seq<char>,
    pub routing_label: Seq<char>,
    pub settings_title: Seq<char>,
    pub menu_reset: Seq<char>,
    pub reset_dialog_heading: Seq<char>,
    pub reset_dialog_body: Seq<char>,
    pub reset_dialog_confirm: Seq<char>,
    pub reset_dialog_cancel: Seq<char>,
    pub used_network: Seq<char>,
    pub expected_network: Seq<char>,
    pub probe_samples: Seq<char>,
}

impl View for Texts {
    type V = TextsView;

    open spec fn view(&self) -> TextsView {
        TextsView {
            inactive: self.inactive@,
            service_tooltip: self.service_tooltip@,
            network_title: self.network_title@,
            network_description: self.network_description@,
            default_connection_title: self.default_connection_title@,
            detecting: self.detecting@,
            exception_network_title: self.exception_network_title@,
            interfaces_loading: self.interfaces_loading@,
            rules_title: self.rules_title@,
            rules_description: self.rules_description@,
            add_address_title: self.add_address_title@,
            address_placeholder: self.address_placeholder@,
            add_rule_tooltip: self.add_rule_tooltip@,
            no_rules_title: self.no_rules_title@,
            no_rules_subtitle: self.no_rules_subtitle@,
            route_test_title: self.route_test_title@,
            route_test_description: self.route_test_description@,
            test_address_title: self.test_address_title@,
            test_placeholder: self.test_placeholder@,
            route_test_tooltip: self.route_test_tooltip@,
            language_title: self.language_title@,
            language_description: self.language_description@,
            language_row_title: self.language_row_title@,
            language_row_subtitle: self.language_row_subtitle@,
            default_not_found: self.default_not_found@,
            no_interfaces: self.no_interfaces@,
            exception_subtitle: self.exception_subtitle@,
            exception_select_prompt: self.exception_select_prompt@,
            activation_failed: self.activation_failed@,
            activation_failed_toast: self.activation_failed_toast@,
            unselected: self.unselected@,
            address_word: self.address_word@,
            delete_rule_tooltip: self.delete_rule_tooltip@,
            resolving: self.resolving@,
            tray_description: self.tray_description@,
            tray_show: self.tray_show@,
            tray_quit: self.tray_quit@,
            tray_tooltip: self.tray_tooltip@,
            routing_label: self.routing_label@,
            settings_title: self.settings_title@,
            menu_reset: self.menu_reset@,
            reset_dialog_heading: self.reset_dialog_heading@,
            reset_dialog_body: self.reset_dialog_body@,
            reset_dialog_confirm: self.reset_dialog_confirm@,
            reset_dialog_cancel: self.reset_dialog_cancel@,
            used_network: self.used_network@,
            expected_network: self.expected_network@,
            probe_samples: self.probe_samples@,
        }
    }
}

/// The Turkish texts.
pub open spec fn turkish_texts() -> TextsView {
    TextsView {
        inactive: "Yönlendirme devre dışı"@,
        service_tooltip: "Yönlendirmeyi Etkinleştir / Devre Dışı Bırak"@,
        network_title: "Ağ Yapılandırması"@,
        network_description: "Varsayılan bağlantı otomatik algılanır. İstisna ağını seçin."@,
        default_connection_title: "Varsayılan Bağlantı"@,
        detecting: "algılanıyor..."@,
        exception_network_title: "İstisna Ağı"@,
        interfaces_loading: "ağ arayüzleri yükleniyor"@,
        rules_title: "Yönlendirme İstisnaları"@,
        rules_description: "Bu adresler İstisna Ağı üzerinden yönlendirilir; diğer trafik değişmez."@,
        add_address_title: "Adres Ekle"@,
        address_placeholder: "alan adı veya IP/CIDR  (örn: chatgpt.com, 8.8.8.8)"@,
        add_rule_tooltip: "Kural Ekle"@,
        no_rules_title: "Henüz kural eklenmedi"@,
        no_rules_subtitle: "Yukarıya bir alan adı veya IP adresi girin"@,
        route_test_title: "Rota Testi"@,
        route_test_description: "Bir adresin şu anda hangi ağ üzerinden çıktığını kontrol edin."@,
        test_address_title: "Adres Test Et"@,
        test_placeholder: "gemini.google.com veya https://gemini.google.com/app"@,
        route_test_tooltip: "Rotayı Test Et"@,
        language_title: "Dil"@,
        language_description: "Arayüz dilini seçin."@,
        language_row_title: "Arayüz Dili"@,
        language_row_subtitle: "Metinler hemen güncellenir"@,
        default_not_found: "varsayılan bağlantı bulunamadı"@,
        no_interfaces: "seçilebilir ağ arayüzü bulunamadı"@,
        exception_subtitle: "Eklenen adresler bu ağ üzerinden yönlendirilir"@,
        exception_select_prompt: "İstisna ağını seçin"@,
        activation_failed: "Etkinleştirme başarısız"@,
        activation_failed_toast: "Etkinleştirilemedi"@,
        unselected: "seçilmedi"@,
        address_word: "adres"@,
        delete_rule_tooltip: "Kuralı Sil"@,
        resolving: "çözümleniyor..."@,
        tray_description: "Seçili adresleri istisna ağına yönlendirir"@,
        tray_show: "Göster"@,
        tray_quit: "Çıkış"@,
        tray_tooltip: "Yönlendirme aracı"@,
        routing_label: "Yönlendirme"@,
        settings_title: "Tercihler"@,
        menu_reset: "Sıfırla"@,
        reset_dialog_heading: "Tüm Kurallar Silinecek"@,
        reset_dialog_body: "Bu işlem geri alınamaz. Tüm yönlendirme kuralları ve kernel durumu temizlenir."@,
        reset_dialog_confirm: "Sıfırla"@,
        reset_dialog_cancel: "İptal"@,
        used_network: "Kullanılan Ağ"@,
        expected_network: "Beklenen Ağ"@,
        probe_samples: "Adresler"@,
    }
}

/// The English texts.
pub open spec fn english_texts() -> TextsView {
    TextsView {
        inactive: "Routing disabled"@,
        service_tooltip: "Enable / Disable Routing"@,
        network_title: "Network Configuration"@,
        network_description: "The default connection is detected automatically. Select the exception network."@,
        default_connection_title: "Default Connection"@,
        detecting: "detecting..."@,
        exception_network_title: "Exception Network"@,
        interfaces_loading: "loading network interfaces"@,
        rules_title: "Routing Exceptions"@,
        rules_description: "These addresses are routed through the Exception Network; other traffic is unchanged."@,
        add_address_title: "Add Address"@,
        address_placeholder: "domain or IP/CIDR  (e.g. chatgpt.com, 8.8.8.8)"@,
        add_rule_tooltip: "Add Rule"@,
        no_rules_title: "No rules added yet"@,
        no_rules_subtitle: "Enter a domain or IP address above"@,
        route_test_title: "Route Test"@,
        route_test_description: "Check which network an address currently uses."@,
        test_address_title: "Test Address"@,
        test_placeholder: "gemini.google.com or https://gemini.google.com/app"@,
        route_test_tooltip: "Test Route"@,
        language_title: "Language"@,
        language_description: "Choose the interface language."@,
        language_row_title: "Interface Language"@,
        language_row_subtitle: "Text updates immediately"@,
        default_not_found: "default connection not found"@,
        no_interfaces: "no selectable network interface found"@,
        exception_subtitle: "Added addresses are routed through this network"@,
        exception_select_prompt: "Select the exception network"@,
        activation_failed: "Activation failed"@,
        activation_failed_toast: "Could not enable"@,
        unselected: "not selected"@,
        address_word: "address"@,
        delete_rule_tooltip: "Delete Rule"@,
        resolving: "resolving..."@,
        tray_description: "Routes selected addresses through the exception network"@,
        tray_show: "Show"@,
        tray_quit: "Quit"@,
        tray_tooltip: "Routing tool"@,
        routing_label: "Routing"@,
        settings_title: "Preferences"@,
        menu_reset: "Reset"@,
        reset_dialog_heading: "All Rules Will Be Deleted"@,
        reset_dialog_body: "This action cannot be undone. All routing rules and kernel state will be cleared."@,
        reset_dialog_confirm: "Reset"@,
        reset_dialog_cancel: "Cancel"@,
        used_network: "Used Network"@,
        expected_network: "Expected Network"@,
        probe_samples: "Addresses"@,
    }
}

pub open spec fn texts_of_language(l: Language) -> TextsView {
    match l {
        Language::Tr => turkish_texts(),
        Language::En => english_texts(),
    }
}

impl Language {
    /// The interface's texts in this language.
    pub fn texts(self) -> (r: Texts)
        ensures
            r@ == texts_of_language(self),
    {
        match self {
            Language::Tr => Texts {
                inactive: "Yönlendirme devre dışı",
                service_tooltip: "Yönlendirmeyi Etkinleştir / Devre Dışı Bırak",
                network_title: "Ağ Yapılandırması",
                network_description: "Varsayılan bağlantı otomatik algılanır. İstisna ağını seçin.",
                default_connection_title: "Varsayılan Bağlantı",
                detecting: "algılanıyor...",
                exception_network_title: "İstisna Ağı",
                interfaces_loading: "ağ arayüzleri yükleniyor",
                rules_title: "Yönlendirme İstisnaları",
                rules_description: "Bu adresler İstisna Ağı üzerinden yönlendirilir; diğer trafik değişmez.",
                add_address_title: "Adres Ekle",
                address_placeholder: "alan adı veya IP/CIDR  (örn: chatgpt.com, 8.8.8.8)",
                add_rule_tooltip: "Kural Ekle",
                no_rules_title: "Henüz kural eklenmedi",
                no_rules_subtitle: "Yukarıya bir alan adı veya IP adresi girin",
                route_test_title: "Rota Testi",
                route_test_description: "Bir adresin şu anda hangi ağ üzerinden çıktığını kontrol edin.",
                test_address_title: "Adres Test Et",
                test_placeholder: "gemini.google.com veya https://gemini.google.com/app",
                route_test_tooltip: "Rotayı Test Et",
                language_title: "Dil",
                language_description: "Arayüz dilini seçin.",
                language_row_title: "Arayüz Dili",
                language_row_subtitle: "Metinler hemen güncellenir",
                default_not_found: "varsayılan bağlantı bulunamadı",
                no_interfaces: "seçilebilir ağ arayüzü bulunamadı",
                exception_subtitle: "Eklenen adresler bu ağ üzerinden yönlendirilir",
                exception_select_prompt: "İstisna ağını seçin",
                activation_failed: "Etkinleştirme başarısız",
                activation_failed_toast: "Etkinleştirilemedi",
                unselected: "seçilmedi",
                address_word: "adres",
                delete_rule_tooltip: "Kuralı Sil",
                resolving: "çözümleniyor...",
                tray_description: "Seçili adresleri istisna ağına yönlendirir",
                tray_show: "Göster",
                tray_quit: "Çıkış",
                tray_tooltip: "Yönlendirme aracı",
                routing_label: "Yönlendirme",
                settings_title: "Tercihler",
                menu_reset: "Sıfırla",
                reset_dialog_heading: "Tüm Kurallar Silinecek",
                reset_dialog_body: "Bu işlem geri alınamaz. Tüm yönlendirme kuralları ve kernel durumu temizlenir.",
                reset_dialog_confirm: "Sıfırla",
                reset_dialog_cancel: "İptal",
                used_network: "Kullanılan Ağ",
                expected_network: "Beklenen Ağ",
                probe_samples: "Adresler",
            },
            Language::En => Texts {
                inactive: "Routing disabled",
                service_tooltip: "Enable / Disable Routing",
                network_title: "Network Configuration",
                network_description: "The default connection is detected automatically. Select the exception network.",
                default_connection_title: "Default Connection",
                detecting: "detecting...",
                exception_network_title: "Exception Network",
                interfaces_loading: "loading network interfaces",
                rules_title: "Routing Exceptions",
                rules_description: "These addresses are routed through the Exception Network; other traffic is unchanged.",
                add_address_title: "Add Address",
                address_placeholder: "domain or IP/CIDR  (e.g. chatgpt.com, 8.8.8.8)",
                add_rule_tooltip: "Add Rule",
                no_rules_title: "No rules added yet",
                no_rules_subtitle: "Enter a domain or IP address above",
                route_test_title: "Route Test",
                route_test_description: "Check which network an address currently uses.",
                test_address_title: "Test Address",
                test_placeholder: "gemini.google.com or https://gemini.google.com/app",
                route_test_tooltip: "Test Route",
                language_title: "Language",
                language_description: "Choose the interface language.",
                language_row_title: "Interface Language",
                language_row_subtitle: "Text updates immediately",
                default_not_found: "default connection not found",
                no_interfaces: "no selectable network interface found",
                exception_subtitle: "Added addresses are routed through this network",
                exception_select_prompt: "Select the exception network",
                activation_failed: "Activation failed",
                activation_failed_toast: "Could not enable",
                unselected: "not selected",
                address_word: "address",
                delete_rule_tooltip: "Delete Rule",
                resolving: "resolving...",
                tray_description: "Routes selected addresses through the exception network",
                tray_show: "Show",
                tray_quit: "Quit",
                tray_tooltip: "Routing tool",
                routing_label: "Routing",
                settings_title: "Preferences",
                menu_reset: "Reset",
                reset_dialog_heading: "All Rules Will Be Deleted",
                reset_dialog_body: "This action cannot be undone. All routing rules and kernel state will be cleared.",
                reset_dialog_confirm: "Reset",
                reset_dialog_cancel: "Cancel",
                used_network: "Used Network",
                expected_network: "Expected Network",
                probe_samples: "Addresses",
            },
        }
    }
}


/// How the engine's status line reads in a language: Turkish as written;
/// in English the two known forms are translated and anything else is kept.
pub open spec fn status_in(l: Language, status: Seq<char>) -> Seq<char> {
    let rest = status.skip("Aktif — "@.len() as int);
    if l == Language::Tr {
        status
    } else if status == "Devre dışı"@ {
        english_texts().inactive
    } else if "Aktif — "@.is_prefix_of(status) && ws_tokens(rest).len() > 0 {
        "Active - "@ + ws_tokens(rest)[0] + " rule(s)"@
    } else {
        status
    }
}

pub open spec fn gateway_subtitle(l: Language, name: Seq<char>, gateway: Seq<char>) -> Seq<char> {
    match l {
        Language::Tr => name + " - varsayılan ağ geçidi "@ + gateway,
        Language::En => name + " - default gateway "@ + gateway,
    }
}

pub open spec fn sample_more(l: Language, count: nat) -> Seq<char> {
    match l {
        Language::Tr => " +"@ + dec_text(count) + " "@ + turkish_texts().address_word,
        Language::En => " +"@ + dec_text(count) + " more "@ + english_texts().address_word,
    }
}

impl Language {
    /// The engine's status line in this language.
    pub fn localized_status(self, status: &str) -> (r: String)
        ensures
            r@ == status_in(self, status@),
    {
        if self == Language::Tr {
            return string_of(status);
        }
        if str_eq(status, "Devre dışı") {
            return string_of(self.texts().inactive);
        }
        if starts_with_str(status, "Aktif — ") {
            let v = chars_of(status);
            let p = chars_of("Aktif — ");
            let n = v.len();
            let plen = p.len();
            let toks = ws_token_ranges(&v, plen, n);
            assert(v@.subrange(plen as int, n as int) =~= status@.skip("Aktif — "@.len() as int));
            if toks.len() > 0 {
                let (a, b) = toks[0];
                assert(range_pieces(v@, toks@)[0] == v@.subrange(a as int, b as int));
                let mut r = string_of("Active - ");
                let w = string_of_range(&v, a, b, false);
                append_str(&mut r, w.as_str());
                append_str(&mut r, " rule(s)");
                return r;
            }
        }
        string_of(status)
    }

    /// The default connection's line: the interface and its gateway.
    pub fn default_gateway_subtitle(self, name: &str, gateway: &str) -> (r: String)
        ensures
            r@ == gateway_subtitle(self, name@, gateway@),
    {
        let mut r = string_of(name);
        match self {
            Language::Tr => append_str(&mut r, " - varsayılan ağ geçidi "),
            Language::En => append_str(&mut r, " - default gateway "),
        }
        append_str(&mut r, gateway);
        r
    }

    /// The note that more addresses were probed than are listed.
    pub fn route_sample_more(self, count: usize) -> (r: String)
        ensures
            r@ == sample_more(self, count as nat),
    {
        let mut r = string_of(" +");
        push_decimal(&mut r, count as u64);
        match self {
            Language::Tr => append_str(&mut r, " "),
            Language::En => append_str(&mut r, " more "),
        }
        append_str(&mut r, self.texts().address_word);
        r
    }
}

} // verus!
