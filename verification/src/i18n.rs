//! Interface texts in Spanish and English, looked up by key.

use vstd::prelude::*;
use crate::text::str_eq;

verus! {

/// Languages of the interface.
#[derive(Clone, Copy, PartialEq, Eq, Debug, Structural)]
pub enum Lang {
    Es,
    En,
}

/// Looks texts up by key in the current language.
pub struct I18n {
    pub lang: Lang,
}

/// The Es text of `key`, when the table has one.
pub open spec fn es_text(key: Seq<char>) -> Option<Seq<char>> {
    if key == "file"@ {
        Some("Archivo"@)
    } else if key == "new"@ {
        Some("Nuevo"@)
    } else if key == "open"@ {
        Some("Abrir"@)
    } else if key == "close"@ {
        Some("Cerrar"@)
    } else if key == "exit"@ {
        Some("Salir"@)
    } else if key == "app_title"@ {
        Some("Mi App"@)
    } else if key == "lang_toggle"@ {
        Some("EN"@)
    } else if key == "style"@ {
        Some("Estilo"@)
    } else if key == "input_hint"@ {
        Some("Letra (C–B) → nota | 1=Redonda 2=Blanca 4=Negra 8=Corchea 6=Semicorchea 32=Fusa 33=Semifusa | Enter para insertar"@)
    } else if key == "new_score"@ {
        Some("Partitura nueva creada"@)
    } else if key == "open_success"@ {
        Some("{} cargada"@)
    } else if key == "open_error"@ {
        Some("Error al abrir: {}"@)
    } else if key == "play"@ {
        Some("▶"@)
    } else if key == "stop"@ {
        Some("⏹"@)
    } else if key == "play_wasm_unavailable"@ {
        Some("Reproducción no disponible en el navegador todavía"@)
    } else if key == "no_instrument"@ {
        Some("Sin instrumento configurado — elegí un archivo .sfz en Preferencias"@)
    } else {
        None
    }
}

/// The En text of `key`, when the table has one.
pub open spec fn en_text(key: Seq<char>) -> Option<Seq<char>> {
    if key == "file"@ {
        Some("File"@)
    } else if key == "new"@ {
        Some("New"@)
    } else if key == "open"@ {
        Some("Open"@)
    } else if key == "close"@ {
        Some("Close"@)
    } else if key == "exit"@ {
        Some("Exit"@)
    } else if key == "app_title"@ {
        Some("My App"@)
    } else if key == "lang_toggle"@ {
        Some("ES"@)
    } else if key == "style"@ {
        Some("Style"@)
    } else if key == "input_hint"@ {
        Some("Letter (C–B) → note | 1=Whole 2=Half 4=Quarter 8=Eighth 6=16th 32=32nd 33=64th | Enter to insert"@)
    } else if key == "new_score"@ {
        Some("New score created"@)
    } else if key == "open_success"@ {
        Some("{} loaded"@)
    } else if key == "open_error"@ {
        Some("Error opening: {}"@)
    } else if key == "play"@ {
        Some("▶"@)
    } else if key == "stop"@ {
        Some("⏹"@)
    } else if key == "play_wasm_unavailable"@ {
        Some("Playback isn't available in the browser build yet"@)
    } else if key == "no_instrument"@ {
        Some("No instrument configured — pick a .sfz file in Preferences"@)
    } else {
        None
    }
}

fn es_lookup(key: &str) -> (r: Option<&'static str>)
    ensures
        match r { Some(v) => es_text(key@) == Some(v@), None => es_text(key@) is None },
{
    if str_eq(key, "file") {
        Some("Archivo")
    } else if str_eq(key, "new") {
        Some("Nuevo")
    } else if str_eq(key, "open") {
        Some("Abrir")
    } else if str_eq(key, "close") {
        Some("Cerrar")
    } else if str_eq(key, "exit") {
        Some("Salir")
    } else if str_eq(key, "app_title") {
        Some("Mi App")
    } else if str_eq(key, "lang_toggle") {
        Some("EN")
    } else if str_eq(key, "style") {
        Some("Estilo")
    } else if str_eq(key, "input_hint") {
        Some("Letra (C–B) → nota | 1=Redonda 2=Blanca 4=Negra 8=Corchea 6=Semicorchea 32=Fusa 33=Semifusa | Enter para insertar")
    } else if str_eq(key, "new_score") {
        Some("Partitura nueva creada")
    } else if str_eq(key, "open_success") {
        Some("{} cargada")
    } else if str_eq(key, "open_error") {
        Some("Error al abrir: {}")
    } else if str_eq(key, "play") {
        Some("▶")
    } else if str_eq(key, "stop") {
        Some("⏹")
    } else if str_eq(key, "play_wasm_unavailable") {
        Some("Reproducción no disponible en el navegador todavía")
    } else if str_eq(key, "no_instrument") {
        Some("Sin instrumento configurado — elegí un archivo .sfz en Preferencias")
    } else {
        None
    }
}

fn en_lookup(key: &str) -> (r: Option<&'static str>)
    ensures
        match r { Some(v) => en_text(key@) == Some(v@), None => en_text(key@) is None },
{
    if str_eq(key, "file") {
        Some("File")
    } else if str_eq(key, "new") {
        Some("New")
    } else if str_eq(key, "open") {
        Some("Open")
    } else if str_eq(key, "close") {
        Some("Close")
    } else if str_eq(key, "exit") {
        Some("Exit")
    } else if str_eq(key, "app_title") {
        Some("My App")
    } else if str_eq(key, "lang_toggle") {
        Some("ES")
    } else if str_eq(key, "style") {
        Some("Style")
    } else if str_eq(key, "input_hint") {
        Some("Letter (C–B) → note | 1=Whole 2=Half 4=Quarter 8=Eighth 6=16th 32=32nd 33=64th | Enter to insert")
    } else if str_eq(key, "new_score") {
        Some("New score created")
    } else if str_eq(key, "open_success") {
        Some("{} loaded")
    } else if str_eq(key, "open_error") {
        Some("Error opening: {}")
    } else if str_eq(key, "play") {
        Some("▶")
    } else if str_eq(key, "stop") {
        Some("⏹")
    } else if str_eq(key, "play_wasm_unavailable") {
        Some("Playback isn't available in the browser build yet")
    } else if str_eq(key, "no_instrument") {
        Some("No instrument configured — pick a .sfz file in Preferences")
    } else {
        None
    }
}

/// The text of `key` in `lang`, or `key` itself when the table has none.
pub open spec fn translation(lang: Lang, key: Seq<char>) -> Seq<char> {
    let found = match lang {
        Lang::Es => es_text(key),
        Lang::En => en_text(key),
    };
    match found {
        Some(v) => v,
        None => key,
    }
}

impl I18n {
    pub fn new(lang: Lang) -> (i: Self)
        ensures
            i.lang == lang,
    {
        I18n { lang }
    }

    /// The text of `key` in the current language; an unknown key is
    /// returned as it is.
    pub fn t<'a>(&self, key: &'a str) -> (r: &'a str)
        ensures
            r@ == translation(self.lang, key@),
    {
        let found = match self.lang {
            Lang::Es => es_lookup(key),
            Lang::En => en_lookup(key),
        };
        match found {
            Some(v) => v,
            None => key,
        }
    }
}

} // verus!
