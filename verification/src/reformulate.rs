//! Rewording through a local Ollama server: the styles, the prompt, the
//! endpoints and the reply.
use vstd::prelude::*;
use crate::api::{
    json_array_len, json_error, json_field, json_item_field, json_item_str, json_len, json_parse_error,
    json_quoted, json_str_field, json_string,
};
use crate::text::{owned, push_str, str_eq, trim, trim_string};

verus! {

/// The styles: key, label, instruction.
pub open spec fn style_table() -> Seq<(Seq<char>, Seq<char>, Seq<char>)> {
    seq![
        ("formel"@, "Formel"@, "Reformule ce texte de manière formelle et professionnelle"@),
        ("informel"@, "Informel"@, "Reformule ce texte de manière décontractée et amicale"@),
        ("resume"@, "Résumé"@, "Résume ce texte en 1-2 phrases concises"@),
        ("bullets"@, "Bullet points"@, "Transforme ce texte en liste à puces claire"@),
        ("email"@, "Email pro"@, "Transforme ce texte en email professionnel avec objet et formules de politesse"@),
        ("tweet"@, "Tweet"@, "Condense ce texte en 280 caractères maximum pour Twitter/X"@),
        ("correction"@, "Correction"@, "Corrige uniquement l'orthographe et la grammaire sans changer le sens ni le style"@),
    ]
}

/// The styles offered, in order: (key, label, instruction).
pub fn styles() -> (r: Vec<(&'static str, &'static str, &'static str)>)
    ensures r@.map_values(|t: (&'static str, &'static str, &'static str)| (t.0@, t.1@, t.2@)) == style_table(),
{
    let r = vec![
        ("formel", "Formel", "Reformule ce texte de manière formelle et professionnelle"),
        ("informel", "Informel", "Reformule ce texte de manière décontractée et amicale"),
        ("resume", "Résumé", "Résume ce texte en 1-2 phrases concises"),
        ("bullets", "Bullet points", "Transforme ce texte en liste à puces claire"),
        ("email", "Email pro", "Transforme ce texte en email professionnel avec objet et formules de politesse"),
        ("tweet", "Tweet", "Condense ce texte en 280 caractères maximum pour Twitter/X"),
        ("correction", "Correction", "Corrige uniquement l'orthographe et la grammaire sans changer le sens ni le style"),
    ];
    assert(r@.map_values(|t: (&'static str, &'static str, &'static str)| (t.0@, t.1@, t.2@)) =~= style_table());
    r
}

/// The instruction of the first style with this key in `table`, or the
/// plain "Reformule ce texte" when none has it.
pub open spec fn instruction_in(table: Seq<(Seq<char>, Seq<char>, Seq<char>)>, key: Seq<char>) -> Seq<char>
    decreases table.len(),
{
    if table.len() == 0 {
        "Reformule ce texte"@
    } else if table[0].0 == key {
        table[0].2
    } else {
        instruction_in(table.drop_first(), key)
    }
}

/// The instruction for a style key.
pub fn style_instruction(key: &str) -> (r: &'static str)
    ensures r@ == instruction_in(style_table(), key@),
{
    let table = styles();
    let ghost t = style_table();
    assert(t.skip(0) == t);
    let mut i: usize = 0;
    while i < table.len()
        invariant
            i <= table@.len(),
            t == style_table(),
            table@.len() == t.len(),
            forall|k: int| 0 <= k < t.len() ==> (#[trigger] t[k]) == (table@[k].0@, table@[k].1@, table@[k].2@),
            instruction_in(t.skip(i as int), key@) == instruction_in(t, key@),
        decreases table@.len() - i,
    {
        assert(t.skip(i as int)[0] == t[i as int]);
        assert(t.skip(i as int).drop_first() == t.skip(i + 1));
        if str_eq(table[i].0, key) {
            assert(instruction_in(t.skip(i as int), key@) == t[i as int].2);
            assert(t[i as int] == (table@[i as int].0@, table@[i as int].1@, table@[i as int].2@));
            return table[i].2;
        }
        i += 1;
    }
    assert(t.skip(i as int).len() == 0);
    "Reformule ce texte"
}

/// The prompt sent to the model.
pub open spec fn prompt_text(instruction: Seq<char>, text: Seq<char>) -> Seq<char> {
    instruction + " :\n\n"@ + text
        + "\n\nRéponds uniquement avec le texte reformulé, sans commentaire ni explication."@
}

/// The prompt for rewording `text` in the style `style_key`.
pub fn reformulate_prompt(text: &str, style_key: &str) -> (r: String)
    ensures r@ == prompt_text(instruction_in(style_table(), style_key@), text@),
{
    let mut r = owned(style_instruction(style_key));
    push_str(&mut r, " :\n\n");
    push_str(&mut r, text);
    push_str(&mut r, "\n\nRéponds uniquement avec le texte reformulé, sans commentaire ni explication.");
    r
}

/// `s` without the slashes at its end (`str::trim_end_matches('/')`).
pub open spec fn trim_slashes(s: Seq<char>) -> Seq<char>
    decreases s.len(),
{
    if s.len() > 0 && s.last() == '/' { trim_slashes(s.drop_last()) } else { s }
}

/// An Ollama endpoint: the server address without trailing slashes, then the path.
pub fn endpoint(url: &str, path: &str) -> (r: String)
    ensures r@ == trim_slashes(url@) + path@,
{
    let v = crate::text::chars_of(url);
    let mut n: usize = v.len();
    assert(v@.take(v@.len() as int) == v@);
    while n > 0 && v[n - 1] == '/'
        invariant
            n <= v@.len(),
            v@ == url@,
            trim_slashes(v@.take(n as int)) == trim_slashes(v@),
        decreases n,
    {
        assert(v@.take(n as int).drop_last() == v@.take(n - 1));
        n -= 1;
    }
    assert(v@.take(v@.len() as int) == v@);
    let mut r = crate::text::string_of(vstd::slice::slice_subrange(v.as_slice(), 0, n));
    push_str(&mut r, path);
    r
}

/// The reworded text from the reply's `response` field: trimmed, and an
/// error ("Réponse vide d'Ollama") when it is missing or empty.
pub fn reformulated(response: Option<&str>) -> (r: Result<String, String>)
    ensures
        match r {
            Ok(t) => response is Some && t@ == trim(response->0@) && t@.len() > 0,
            Err(m) => (response is None || trim(response->0@).len() == 0) && m@ == "Réponse vide d'Ollama"@,
        },
{
    match response {
        Some(s) => {
            let t = trim_string(s);
            if t.as_str().is_empty() {
                Err(owned("Réponse vide d'Ollama"))
            } else {
                Ok(t)
            }
        },
        None => Err(owned("Réponse vide d'Ollama")),
    }
}

/// The JSON body of a generation request to Ollama, as serde_json writes
/// it: keys in order, the model and the prompt as JSON strings, no
/// streaming, temperature 0.7 and at most 500 tokens.
pub open spec fn request_body_text(model: Seq<char>, prompt: Seq<char>) -> Seq<char> {
    "{\"model\":"@ + json_quoted(model) + ",\"options\":{\"num_predict\":500,\"temperature\":0.7},\"prompt\":"@
        + json_quoted(prompt) + ",\"stream\":false}"@
}

/// The body of the `POST /api/generate` request.
pub fn ollama_request_body(model: &str, prompt: &str) -> (r: String)
    ensures r@ == request_body_text(model@, prompt@),
{
    let mut r = owned("{\"model\":");
    push_str(&mut r, json_string(model).as_str());
    push_str(&mut r, ",\"options\":{\"num_predict\":500,\"temperature\":0.7},\"prompt\":");
    push_str(&mut r, json_string(prompt).as_str());
    push_str(&mut r, ",\"stream\":false}");
    r
}

/// What a generation reply body gives: serde_json's error after "Réponse
/// Ollama invalide : " when it is not JSON, otherwise its `response` field
/// trimmed, or "Réponse vide d'Ollama" when that is missing or empty.
pub fn reformulated_reply(body: &str) -> (r: Result<String, String>)
    ensures
        match json_parse_error(body@) {
            Some(e) => r matches Err(m) && m@ == "Réponse Ollama invalide : "@ + e,
            None => match r {
                Ok(t) => json_str_field(body@, "response"@) matches Some(x) && t@ == trim(x) && t@.len() > 0,
                Err(m) => m@ == "Réponse vide d'Ollama"@ && match json_str_field(body@, "response"@) {
                    Some(x) => trim(x).len() == 0,
                    None => true,
                },
            },
        },
{
    match json_error(body) {
        Some(e) => {
            let mut m = owned("Réponse Ollama invalide : ");
            push_str(&mut m, e.as_str());
            Err(m)
        },
        None => {
            let field = json_field(body, "response");
            match &field {
                Some(s) => reformulated(Some(s.as_str())),
                None => reformulated(None),
            }
        },
    }
}

/// The `name` strings of the items of the `models` array of an Ollama model
/// list, the first `n` items, skipping items without one.
pub open spec fn listed_names(body: Seq<char>, n: nat) -> Seq<Seq<char>>
    decreases n,
{
    if n == 0 {
        seq![]
    } else {
        listed_names(body, (n - 1) as nat) + match json_item_field(body, "models"@, (n - 1) as nat, "name"@) {
            Some(x) => seq![x],
            None => seq![],
        }
    }
}

/// The model names in an Ollama `/api/tags` reply, in order: the `name` of
/// each item of `models` that has one (none when the reply is not JSON or
/// has no such array).
pub fn model_names(body: &str) -> (r: Vec<String>)
    ensures r@.map_values(|s: String| s@) == listed_names(body@, json_len(body@, "models"@)),
{
    let n = json_array_len(body, "models");
    let mut v: Vec<String> = Vec::new();
    let mut i: usize = 0;
    while i < n
        invariant
            i <= n,
            n as nat == json_len(body@, "models"@),
            v@.map_values(|s: String| s@) == listed_names(body@, i as nat),
        decreases n - i,
    {
        let item = json_item_str(body, "models", i, "name");
        let ghost before = v@;
        match item {
            Some(s) => {
                let ghost sv = s@;
                v.push(s);
                assert(v@.map_values(|s: String| s@) =~= before.map_values(|s: String| s@) + seq![sv]);
            },
            None => {},
        }
        assert(listed_names(body@, (i + 1) as nat) == listed_names(body@, i as nat) + match json_item_field(
            body@, "models"@, i as nat, "name"@) { Some(x) => seq![x], None => seq![] });
        i += 1;
    }
    v
}

} // verus!
