use vstd::prelude::*;

verus! {

/// Tunable parameters of one scene, decoded from the scene's configuration
/// text. The `size` value is carried as the raw bit pattern of an IEEE
/// double, so that the rest of the library never computes with floating
/// point; a renderer turns the bits back into a number when it draws.
#[derive(Clone, Copy, PartialEq, Eq, Structural, Debug)]
pub struct SceneParams {
    pub size_bits: u64,
}

impl Default for SceneParams {
    /// Parameters before any configuration document has been applied.
    fn default() -> (r: SceneParams)
        ensures
            r.size_bits == 0,
    {
        SceneParams { size_bits: 0 }
    }
}

/// What a TOML document holds under `key` when that entry is a float, as
/// IEEE-double bits, or `None` when the text is not well-formed TOML or
/// has no float under that key. The value of this function is fixed by
/// the TOML parser that `parse_float_bits` calls.
pub uninterp spec fn toml_float_bits(text: Seq<char>, key: Seq<char>) -> Option<u64>;

/// The `size` entry of a scene's configuration document.
pub open spec fn toml_size_bits(text: Seq<char>) -> Option<u64> {
    toml_float_bits(text, "size"@)
}

/// Relies on toml::from_str::<toml::Table>, toml::map::Map::get and
/// f64::to_bits: parses TOML text and reads the float under `key` as
/// IEEE-double bits. The result depends on the text and the key alone.
#[verifier::external_body]
fn parse_float_bits(s: &str, key: &str) -> (r: Option<u64>)
    ensures
        r == toml_float_bits(s@, key@),
{
    let table: toml::Table = match toml::from_str(s) {
        Ok(t) => t,
        Err(_) => return None,
    };
    match table.get(key) {
        Some(toml::Value::Float(f)) => Some(f.to_bits()),
        _ => None,
    }
}

/// What a filesystem notification reported about a watched configuration
/// file, as the host's watcher hands it over.
#[derive(Clone, Copy, PartialEq, Eq, Structural, Debug)]
pub enum WatchEventKind {
    /// The file's contents changed.
    Modified,
    /// Anything else: creation, removal, metadata.
    Other,
}

/// Whether a watch notification should reload the scene's parameters:
/// only a modification of the file's contents does; creation, removal and
/// metadata-only events are ignored.
pub fn reload_wanted(kind: WatchEventKind) -> (r: bool)
    ensures
        r == (kind is Modified),
{
    match kind {
        WatchEventKind::Modified => true,
        WatchEventKind::Other => false,
    }
}

/// The raw text of a scene's configuration document, read from its file by
/// the host; decoding happens in `get`.
pub struct ParamsData {
    text: String,
}

impl View for ParamsData {
    type V = Seq<char>;

    closed spec fn view(&self) -> Seq<char> {
        self.text@
    }
}

impl ParamsData {
    pub fn new(s: String) -> (r: ParamsData)
        ensures
            r@ == s@,
    {
        ParamsData { text: s }
    }

    /// Decodes the document into scene parameters; `None` on any malformed
    /// document, so that a caller can keep its previous parameters.
    pub fn get(self) -> (r: Option<SceneParams>)
        ensures
            match toml_size_bits(self@) {
                Some(b) => r == Some(SceneParams { size_bits: b }),
                None => r is None,
            },
    {
        match parse_float_bits(self.text.as_str(), "size") {
            Some(b) => Some(SceneParams { size_bits: b }),
            None => None,
        }
    }
}

} // verus!
