//! Platforms, and the macro: one value for each platform.

use vstd::prelude::*;
use crate::yaml::{
    optional_entry, optional_text, outcome_view, parse_yaml, yaml_document,
    YamlFault, YamlNode, YamlView,
};

verus! {

/// A publishing platform that a document can be compiled for.
#[derive(Debug, Clone, Copy, PartialEq, Eq, Structural)]
pub enum Platform {
    Zenn,
    Qiita,
}

/// A pair of values, one for Zenn and one for Qiita. A macro holds two
/// optional strings when it is read, two token streams when it is scanned
/// and two element streams when it is parsed.
#[derive(Debug, Clone, PartialEq, Eq)]
pub struct Macro<T> {
    pub zenn: T,
    pub qiita: T,
}

/// Macro before tokenization.
pub type StringMacro = Macro<Option<String>>;

/// What a macro's body says: a mapping with an optional string for each
/// platform, under the platform's name in lower case or capitalised. A body
/// that cannot be read, or that is of another shape, says nothing.
pub open spec fn macro_of_document(doc: Result<YamlView, YamlFault>) -> Option<
    Macro<Option<Seq<char>>>,
> {
    match doc {
        Ok(YamlView::Mapping(entries)) => match (
            optional_text(entries, "zenn"@, "Zenn"@),
            optional_text(entries, "qiita"@, "Qiita"@),
        ) {
            (Ok(zenn), Ok(qiita)) => Some(Macro { zenn, qiita }),
            _ => None,
        },
        _ => None,
    }
}

/// What the body of a macro says, by the text of the body.
pub open spec fn macro_of_text(body: Seq<char>) -> Option<Macro<Option<Seq<char>>>> {
    macro_of_document(yaml_document(body))
}

/// The value of a macro of optional strings.
pub open spec fn string_macro_view(m: StringMacro) -> Macro<Option<Seq<char>>> {
    Macro {
        zenn: match m.zenn {
            Some(s) => Some(s@),
            None => None,
        },
        qiita: match m.qiita {
            Some(s) => Some(s@),
            None => None,
        },
    }
}

/// The outcome of reading a macro's body, by the values of its parts.
pub open spec fn decoded_view(r: Option<StringMacro>) -> Option<Macro<Option<Seq<char>>>> {
    match r {
        Some(m) => Some(string_macro_view(m)),
        None => None,
    }
}

/// Reads the body of a macro: the text for each platform, or none where the
/// body is faulty.
pub fn decode_macro(body: &str) -> (r: Option<StringMacro>)
    ensures
        decoded_view(r) == macro_of_text(body@),
{
    macro_of_yaml(parse_yaml(body))
}

/// What a macro's body says, given the outcome of reading it as YAML.
pub fn macro_of_yaml(doc: Result<YamlNode, YamlFault>) -> (r: Option<StringMacro>)
    ensures
        decoded_view(r) == macro_of_document(outcome_view(doc)),
{
    match doc {
        Ok(YamlNode::Mapping(entries)) => {
            let zenn = optional_entry(&entries, "zenn", "Zenn");
            let qiita = optional_entry(&entries, "qiita", "Qiita");
            match (zenn, qiita) {
                (Ok(zenn), Ok(qiita)) => Some(Macro { zenn, qiita }),
                _ => None,
            }
        },
        _ => None,
    }
}

} // verus!
