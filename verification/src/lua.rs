//! User filtering rules written in Lua: a script defines a global
//! `filter(path, size)` that says whether a file is copied. The Lua state
//! is that of the `mlua` crate; what a script does is up to its author.

use crate::text::str_equal;
use mlua::{Function, Lua, Table, Value};
use vstd::prelude::*;

verus! {

#[verifier::external_type_specification]
#[verifier::external_body]
pub struct ExLua(Lua);

#[verifier::external_type_specification]
#[verifier::external_body]
pub struct ExTable(Table);

#[verifier::external_type_specification]
#[verifier::external_body]
pub struct ExFunction(Function);

/// `Lua::new` (outside): a fresh state with the safe standard libraries.
/// It fails only when the interpreter cannot allocate its state, which
/// nothing here can rule out.
#[verifier::external_body]
fn lua_new() -> Lua {
    Lua::new()
}

/// `Chunk::exec` (outside) of the chunk `Lua::load` makes of `script`:
/// runs the script, giving the error's text when it fails. What a script
/// does is up to it, so nothing is stated of the outcome.
#[verifier::external_body]
fn lua_exec(lua: &Lua, script: &str) -> Result<(), String> {
    lua.load(script).exec().map_err(|e| e.to_string())
}

/// `Lua::globals` (outside): the table of global variables.
#[verifier::external_body]
fn lua_globals(lua: &Lua) -> Table {
    lua.globals()
}

/// `Table::get` (outside) of the function stored under `name`, or the
/// error's text when there is none.
#[verifier::external_body]
fn table_function(table: &Table, name: &str) -> Result<Function, String> {
    table.get::<Function>(name).map_err(|e| e.to_string())
}

/// `Function::call` (outside) with a path and a size, expecting a boolean;
/// the error's text when the call fails. The script decides the outcome.
#[verifier::external_body]
fn call_filter(f: &Function, path: &str, size: u64) -> Result<bool, String> {
    f.call::<bool>((path, size)).map_err(|e| e.to_string())
}

/// `Table::pairs` (outside): each entry's key as a string, or the error's
/// text for an entry whose key is not one. The order is the table's own.
#[verifier::external_body]
fn table_keys(table: &Table) -> Vec<Result<String, String>> {
    table.pairs::<String, Value>().map(|p| p.map(|(k, _)| k).map_err(|e| e.to_string())).collect()
}

/// A global that Lua itself defines: the functions of its base library,
/// `require`, and the tables of its standard libraries (Lua 5.4).
pub open spec fn is_builtin_global(name: Seq<char>) -> bool {
    ||| name == "assert"@
    ||| name == "collectgarbage"@
    ||| name == "dofile"@
    ||| name == "error"@
    ||| name == "getmetatable"@
    ||| name == "ipairs"@
    ||| name == "load"@
    ||| name == "loadfile"@
    ||| name == "next"@
    ||| name == "pairs"@
    ||| name == "pcall"@
    ||| name == "print"@
    ||| name == "rawequal"@
    ||| name == "rawget"@
    ||| name == "rawlen"@
    ||| name == "rawset"@
    ||| name == "require"@
    ||| name == "select"@
    ||| name == "setmetatable"@
    ||| name == "tonumber"@
    ||| name == "tostring"@
    ||| name == "type"@
    ||| name == "warn"@
    ||| name == "xpcall"@
    ||| name == "coroutine"@
    ||| name == "debug"@
    ||| name == "io"@
    ||| name == "math"@
    ||| name == "os"@
    ||| name == "package"@
    ||| name == "string"@
    ||| name == "table"@
    ||| name == "utf8"@
}

/// A global the script defined for itself: not one of Lua's built-in
/// globals, not the `filter` function, and not a name starting with `_`.
pub open spec fn is_custom_global(name: Seq<char>) -> bool {
    &&& !(name.len() > 0 && name[0] == '_')
    &&& name != "filter"@
    &&& !is_builtin_global(name)
}

/// The custom globals among the keys read, in their order; keys that could
/// not be read are skipped.
pub open spec fn custom_names(keys: Seq<Result<String, String>>) -> Seq<Seq<char>>
    decreases keys.len(),
{
    if keys.len() == 0 {
        Seq::empty()
    } else {
        let rest = custom_names(keys.drop_last());
        match keys.last() {
            Ok(k) => if is_custom_global(k@) { rest.push(k@) } else { rest },
            Err(_) => rest,
        }
    }
}

/// Whether `name` is one of Lua's built-in globals.
pub fn builtin_global(name: &str) -> (r: bool)
    ensures
        r == is_builtin_global(name@),
{
    str_equal(name, "assert") || str_equal(name, "collectgarbage") || str_equal(name, "dofile") || str_equal(name, "error") || str_equal(name, "getmetatable") || str_equal(name, "ipairs") || str_equal(name, "load") || str_equal(name, "loadfile") || str_equal(name, "next") || str_equal(name, "pairs") || str_equal(name, "pcall") || str_equal(name, "print") || str_equal(name, "rawequal") || str_equal(name, "rawget") || str_equal(name, "rawlen") || str_equal(name, "rawset") || str_equal(name, "require") || str_equal(name, "select") || str_equal(name, "setmetatable") || str_equal(name, "tonumber") || str_equal(name, "tostring") || str_equal(name, "type") || str_equal(name, "warn") || str_equal(name, "xpcall") || str_equal(name, "coroutine") || str_equal(name, "debug") || str_equal(name, "io") || str_equal(name, "math") || str_equal(name, "os") || str_equal(name, "package") || str_equal(name, "string") || str_equal(name, "table") || str_equal(name, "utf8")
}

fn custom_global(name: &str) -> (r: bool)
    ensures
        r == is_custom_global(name@),
{
    let underscore = name.unicode_len() > 0 && name.get_char(0) == '_';
    !underscore && !str_equal(name, "filter") && !builtin_global(name)
}

/// Keeps the readable keys that name custom globals, in order.
pub fn select_custom_names(keys: Vec<Result<String, String>>) -> (r: Vec<String>)
    ensures
        r@.map_values(|s: String| s@) == custom_names(keys@),
{
    let mut out: Vec<String> = Vec::new();
    let mut i: usize = 0;
    while i < keys.len()
        invariant
            i <= keys@.len(),
            out@.map_values(|s: String| s@) == custom_names(keys@.take(i as int)),
        decreases keys@.len() - i,
    {
        proof {
            assert(keys@.take(i + 1).drop_last() =~= keys@.take(i as int));
        }
        match &keys[i] {
            Ok(k) => {
                if custom_global(k.as_str()) {
                    let ghost before = out@;
                    out.push(k.clone());
                    proof {
                        assert(out@.map_values(|s: String| s@) =~= before.map_values(|s: String| s@).push(k@));
                    }
                }
            },
            Err(_) => {},
        }
        i += 1;
    }
    proof {
        assert(keys@.take(i as int) =~= keys@);
    }
    out
}

/// `prefix` followed by `rest`.
fn prefixed(prefix: &str, rest: &str) -> (s: String)
    ensures
        s@ == prefix@ + rest@,
{
    let mut s = prefix.to_string();
    s.append(rest);
    s
}

/// The error given when the script defines no `filter` function, after
/// the lookup failed with the text `e`.
pub fn missing_filter_error(e: &str) -> (r: String)
    ensures
        r@ == "Missing 'filter' function: "@ + e@,
{
    prefixed("Missing 'filter' function: ", e)
}

/// What a call of the script's `filter` comes to: its answer as it is, or
/// its error's text `e` explained as a filter error.
pub fn filter_answer(call: Result<bool, String>) -> (r: Result<bool, String>)
    ensures
        match call {
            Ok(b) => r == Ok::<bool, String>(b),
            Err(e) => r matches Err(m) && m@ == "Lua filter error: "@ + e@,
        },
{
    match call {
        Ok(b) => Ok(b),
        Err(e) => Err(prefixed("Lua filter error: ", e.as_str())),
    }
}

/// An error text made of `prefix` and the outside error's own text.
pub open spec fn explained(e: Seq<char>, prefix: Seq<char>) -> bool {
    exists|detail: Seq<char>| e == prefix + detail
}

/// A reusable Lua state holding a filtering script.
pub struct LuaFilter {
    lua: Lua,
    script: String,
}

impl View for LuaFilter {
    type V = Seq<char>;

    /// The script's text.
    closed spec fn view(&self) -> Seq<char> {
        self.script@
    }
}

impl LuaFilter {
    /// Runs `script` in a fresh state. The script is expected to define a
    /// global `filter(path, size)` returning `true` to include a file.
    pub fn new(script: &str) -> (r: Result<Self, String>)
        ensures
            r matches Ok(f) ==> f@ == script@,
            r matches Err(e) ==> explained(e@, "Lua script error: "@),
    {
        let lua = lua_new();
        match lua_exec(&lua, script) {
            Ok(()) => Ok(LuaFilter { lua, script: script.to_string() }),
            Err(e) => {
                let msg = prefixed("Lua script error: ", e.as_str());
                assert(msg@ == "Lua script error: "@ + e@);
                Err(msg)
            },
        }
    }

    /// Asks the script's `filter` whether to include a file: `true`
    /// includes it, `false` skips it.
    pub fn should_include(&self, path: &str, size: u64) -> (r: Result<bool, String>)
        ensures
            r matches Err(e) ==> explained(e@, "Missing 'filter' function: "@)
                || explained(e@, "Lua filter error: "@),
    {
        let globals = lua_globals(&self.lua);
        let f = match table_function(&globals, "filter") {
            Ok(f) => f,
            Err(e) => {
                let msg = missing_filter_error(e.as_str());
                assert(msg@ == "Missing 'filter' function: "@ + e@);
                return Err(msg);
            },
        };
        let call = call_filter(&f, path, size);
        let ghost found = call;
        let r = filter_answer(call);
        let ghost answer = r;
        proof {
            match (found, answer) {
                (Err(e), Err(m)) => {
                    assert(m@ == "Lua filter error: "@ + e@);
                },
                _ => {},
            }
        }
        r
    }

    /// The script's text.
    pub fn script(&self) -> (r: &str)
        ensures
            r@ == self@,
    {
        self.script.as_str()
    }

    /// The globals the script defined for itself: neither Lua's built-in
    /// globals, nor `filter`, nor the names starting with `_`.
    pub fn custom_globals(&self) -> (r: Vec<String>)
        ensures
            forall|k: int| 0 <= k < r@.len() ==> is_custom_global(#[trigger] r@[k]@),
    {
        let globals = lua_globals(&self.lua);
        let keys = table_keys(&globals);
        let r = select_custom_names(keys);
        proof {
            lemma_custom_names_are_custom(keys@);
            assert forall|k: int| 0 <= k < r@.len() implies is_custom_global(#[trigger] r@[k]@) by {
                assert(r@.map_values(|s: String| s@)[k] == r@[k]@);
            }
        }
        r
    }
}

proof fn lemma_custom_names_are_custom(keys: Seq<Result<String, String>>)
    ensures
        forall|k: int| 0 <= k < custom_names(keys).len() ==> is_custom_global(#[trigger] custom_names(keys)[k]),
    decreases keys.len(),
{
    if keys.len() > 0 {
        let rest = custom_names(keys.drop_last());
        lemma_custom_names_are_custom(keys.drop_last());
        assert forall|k: int| 0 <= k < custom_names(keys).len() implies is_custom_global(
            #[trigger] custom_names(keys)[k],
        ) by {
            if k < rest.len() {
                assert(custom_names(keys)[k] == rest[k]);
            }
        }
    }
}

} // verus!
