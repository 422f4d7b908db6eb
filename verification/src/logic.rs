//! Resource ceilings and failures of optional widget logic.

use vstd::prelude::*;

verus! {

/// Hard resource ceilings for a widget logic instance.
#[derive(Debug, Clone, Copy, PartialEq, Eq, Structural)]
pub struct LogicLimits {
    pub memory_pages: u32,
    pub fuel: u64,
    pub timeout_ms: u64,
    pub max_output_bytes: usize,
}

impl Default for LogicLimits {
    fn default() -> (res: LogicLimits)
        ensures
            res == (LogicLimits {
                memory_pages: 256,
                fuel: 5_000_000,
                timeout_ms: 50,
                max_output_bytes: 1048576,
            }),
    {
        LogicLimits { memory_pages: 256, fuel: 5_000_000, timeout_ms: 50, max_output_bytes: 1024 * 1024 }
    }
}

/// Failure contained to one widget logic instance.
#[derive(Debug)]
pub enum LogicError {
    Unavailable,
    Compile(String),
    MissingFunction(String),
    Call(String),
    OutputTooLarge { actual: usize, limit: usize },
}

} // verus!

verus! {

#[verifier::external_type_specification]
#[verifier::external_body]
pub struct ExPlugin(extism::Plugin);

/// Runtime-neutral factory for stateful widget logic.
pub trait WidgetLogicEngine {
    /// Compiles and creates a stateful plugin using host-supplied ceilings.
    ///
    /// # Errors
    ///
    /// Returns [`LogicError::Compile`] when the module or runtime configuration is invalid.
    fn instantiate(&self, wasm: &[u8], limits: LogicLimits) -> (res: Result<
        Box<dyn WidgetLogicInstance>,
        LogicError,
    >)
        ensures
            res matches Ok(instance) ==> instance.output_limit() == limits.max_output_bytes,
    ;
}

/// One stateful package instance. Calls are deliberately serialized through `&mut self`.
pub trait WidgetLogicInstance {
    /// The configured ceiling, in bytes, on a response.
    spec fn output_limit(&self) -> usize;

    /// Reports whether the module exports an application-level entrypoint.
    fn has_function(&self, function: &str) -> bool;

    /// Calls an entrypoint with a versioned CBOR message. The ceiling never changes, and
    /// no response larger than it is returned.
    ///
    /// # Errors
    ///
    /// Returns an error when the export is missing, traps, exceeds its limits, or
    /// emits a response larger than the configured ceiling.
    fn call(&mut self, function: &str, cbor: &[u8]) -> (res: Result<Vec<u8>, LogicError>)
        ensures
            final(self).output_limit() == old(self).output_limit(),
            res matches Ok(output) ==> output@.len() <= old(self).output_limit(),
            res matches Err(LogicError::OutputTooLarge { actual, limit }) ==> limit
                == old(self).output_limit() && actual > limit,
    ;
}

/// What a module is compiled with: the sandbox switches and ceilings handed to
/// `extism::PluginBuilder`.
pub struct PluginSettings {
    pub wasi: bool,
    pub memory_pages: u32,
    pub timeout_ms: u64,
    pub fuel: u64,
    pub cache: Option<std::path::PathBuf>,
}

/// The build settings for `limits`: WASI off, the memory, timeout and fuel ceilings of
/// `limits`, and the Wasmtime cache configuration `cache` (none disables the cache).
pub fn plugin_settings(limits: LogicLimits, cache: Option<std::path::PathBuf>) -> (s: PluginSettings)
    ensures
        s.wasi == false,
        s.memory_pages == limits.memory_pages,
        s.timeout_ms == limits.timeout_ms,
        s.fuel == limits.fuel,
        s.cache == cache,
{
    PluginSettings {
        wasi: false,
        memory_pages: limits.memory_pages,
        timeout_ms: limits.timeout_ms,
        fuel: limits.fuel,
        cache,
    }
}

/// A copy of a path, from `PathBuf::clone`: it holds the same path.
pub assume_specification[ <std::path::PathBuf as Clone>::clone ](path: &std::path::PathBuf) -> (res: std::path::PathBuf)
    ensures
        res == *path,
;

/// Lazy Extism engine with WASI and built-in host access disabled.
pub struct ExtismEngine {
    cache_config: Option<std::path::PathBuf>,
}

/// Whether a file system entry exists at `path`, from `Path::exists`; the answer
/// depends on the disk, so nothing is stated of it.
#[verifier::external_body]
fn path_exists(path: &std::path::PathBuf) -> (res: bool) {
    path.exists()
}

/// Compiles `wasm` with `extism::PluginBuilder`, handing it each field of `settings`:
/// `Manifest::with_memory_max`, `Manifest::with_timeout`, `with_wasi`,
/// `with_fuel_limit`, and `with_cache_config` or `with_cache_disabled`. A built plugin
/// comes back with the settings it was built with. Whether compilation succeeds depends
/// on the module, the host and the disk cache, so nothing more is stated.
#[verifier::external_body]
fn build_plugin(wasm: &[u8], settings: PluginSettings) -> (res: Result<
    (extism::Plugin, PluginSettings),
    String,
>)
    ensures
        res matches Ok(built) ==> built.1 == settings,
{
    let manifest = extism::Manifest::new([extism::Wasm::data(wasm.to_vec())])
        .with_memory_max(settings.memory_pages)
        .with_timeout(std::time::Duration::from_millis(settings.timeout_ms));
    let builder = extism::PluginBuilder::new(manifest).with_wasi(settings.wasi)
        .with_fuel_limit(settings.fuel);
    let builder = match &settings.cache {
        Some(dir) => builder.with_cache_config(dir),
        None => builder.with_cache_disabled(),
    };
    match builder.build() {
        Ok(plugin) => Ok((plugin, settings)),
        Err(error) => Err(error.to_string()),
    }
}

/// Whether `function` is exported by `plugin` as `extism::Plugin::function_exists`
/// reports it.
pub uninterp spec fn plugin_exports(plugin: extism::Plugin, function: Seq<char>) -> bool;

/// Whether the plugin exports `function` as a callable entrypoint, from
/// `extism::Plugin::function_exists`.
#[verifier::external_body]
fn plugin_function_exists(plugin: &extism::Plugin, function: &str) -> (res: bool)
    ensures
        res == plugin_exports(*plugin, function@),
{
    plugin.function_exists(function)
}

/// Calls `function` with `extism::Plugin::call` and copies its output. Traps, fuel
/// exhaustion and timeouts make the outcome depend on more than the arguments, so
/// nothing is stated of it.
#[verifier::external_body]
fn plugin_call(plugin: &mut extism::Plugin, function: &str, input: &[u8]) -> (res: Result<
    Vec<u8>,
    String,
>) {
    match plugin.call::<&[u8], &[u8]>(function, input) {
        Ok(output) => Ok(output.to_vec()),
        Err(error) => Err(error.to_string()),
    }
}

impl ExtismEngine {
    /// The Wasmtime cache configuration the engine compiles with.
    pub closed spec fn cache(&self) -> Option<std::path::PathBuf> {
        self.cache_config
    }

    /// Creates an engine using an optional Wasmtime cache configuration file.
    pub fn new(cache_config: Option<std::path::PathBuf>) -> (res: ExtismEngine)
        ensures
            res.cache() == cache_config,
    {
        ExtismEngine { cache_config }
    }

    /// Uses the cache configuration at `path` exactly when `present` says the file exists.
    pub fn with_cache_probe(path: std::path::PathBuf, present: bool) -> (res: ExtismEngine)
        ensures
            res.cache() == (if present { Some(path) } else { None }),
    {
        if present {
            ExtismEngine::new(Some(path))
        } else {
            ExtismEngine::new(None)
        }
    }

    /// Uses a cache configuration only when the file exists.
    pub fn with_cache_if_present(path: std::path::PathBuf) -> (res: ExtismEngine)
        ensures
            res.cache() is None || res.cache() == Some(path),
    {
        let present = path_exists(&path);
        ExtismEngine::with_cache_probe(path, present)
    }

    /// Compiles `wasm` with [`plugin_settings`] for `limits` and the engine's cache
    /// configuration, keeping the output ceiling of `limits`.
    ///
    /// # Errors
    ///
    /// Returns [`LogicError::Compile`] when the module or runtime configuration is invalid.
    pub fn compile(&self, wasm: &[u8], limits: LogicLimits) -> (res: Result<ExtismInstance, LogicError>)
        ensures
            res matches Ok(instance) ==> {
                &&& instance.settings().wasi == false
                &&& instance.settings().memory_pages == limits.memory_pages
                &&& instance.settings().timeout_ms == limits.timeout_ms
                &&& instance.settings().fuel == limits.fuel
                &&& instance.settings().cache == self.cache()
                &&& instance.output_limit() == limits.max_output_bytes
            },
            res is Err ==> (res matches Err(LogicError::Compile(_))),
    {
        let cache = match &self.cache_config {
            Some(path) => Some(path.clone()),
            None => None,
        };
        let settings = plugin_settings(limits, cache);
        let built = build_plugin(wasm, settings);
        ExtismInstance::from_build(built, limits)
    }
}

impl WidgetLogicEngine for ExtismEngine {
    fn instantiate(&self, wasm: &[u8], limits: LogicLimits) -> (res: Result<
        Box<dyn WidgetLogicInstance>,
        LogicError,
    >)
        ensures
            res is Err ==> (res matches Err(LogicError::Compile(_))),
    {
        match self.compile(wasm, limits) {
            Ok(instance) => Ok(Box::new(instance)),
            Err(error) => Err(error),
        }
    }
}

/// One compiled Extism plugin and its output ceiling.
pub struct ExtismInstance {
    plugin: extism::Plugin,
    settings: PluginSettings,
    max_output_bytes: usize,
}

impl ExtismInstance {
    /// The largest response, in bytes, a call may return.
    pub closed spec fn output_limit(&self) -> usize {
        self.max_output_bytes
    }

    /// The settings the plugin was compiled with.
    pub closed spec fn settings(&self) -> PluginSettings {
        self.settings
    }

    /// The compiled plugin the instance calls into.
    pub closed spec fn plugin(&self) -> extism::Plugin {
        self.plugin
    }

    /// Turns the outcome of compiling a module (the plugin and the settings it was built
    /// with) into an instance with the output ceiling of `limits`, or into
    /// [`LogicError::Compile`] carrying the compiler's message.
    pub fn from_build(
        built: Result<(extism::Plugin, PluginSettings), String>,
        limits: LogicLimits,
    ) -> (res: Result<ExtismInstance, LogicError>)
        ensures
            built is Ok <==> res is Ok,
            res matches Ok(instance) ==> instance.plugin() == built->Ok_0.0
                && instance.settings() == built->Ok_0.1
                && instance.output_limit() == limits.max_output_bytes,
            built matches Err(message) ==> (res matches Err(LogicError::Compile(m)) && m@
                == message@),
    {
        match built {
            Ok((plugin, settings)) => Ok(
                ExtismInstance { plugin, settings, max_output_bytes: limits.max_output_bytes },
            ),
            Err(message) => Err(LogicError::Compile(message)),
        }
    }
}

/// Turns the outcome of a plugin call into the call's result: a failed call becomes
/// [`LogicError::Call`] with its message, and a response must fit `limit`.
pub fn finish_call(result: Result<Vec<u8>, String>, limit: usize) -> (res: Result<Vec<u8>, LogicError>)
    ensures
        result matches Err(message) ==> (res matches Err(LogicError::Call(m)) && m@ == message@),
        result matches Ok(output) ==> (output@.len() <= limit ==> (res matches Ok(kept) && kept@
            == output@)),
        result matches Ok(output) ==> (output@.len() > limit ==> (res matches Err(
            LogicError::OutputTooLarge { actual, limit: l },
        ) && actual == output@.len() && l == limit)),
{
    match result {
        Ok(output) => check_output(output, limit),
        Err(message) => Err(LogicError::Call(message)),
    }
}

/// Accepts a plugin response that fits the output ceiling.
///
/// # Errors
///
/// Returns [`LogicError::OutputTooLarge`] with both sizes when it does not.
pub fn check_output(output: Vec<u8>, limit: usize) -> (res: Result<Vec<u8>, LogicError>)
    ensures
        output@.len() <= limit ==> (res matches Ok(kept) && kept@ == output@),
        output@.len() > limit ==> (res matches Err(LogicError::OutputTooLarge { actual, limit: l })
            && actual == output@.len() && l == limit),
{
    if output.len() > limit {
        return Err(LogicError::OutputTooLarge { actual: output.len(), limit });
    }
    Ok(output)
}

impl WidgetLogicInstance for ExtismInstance {
    closed spec fn output_limit(&self) -> usize {
        self.max_output_bytes
    }

    fn has_function(&self, function: &str) -> (res: bool)
        ensures
            res == plugin_exports(self.plugin(), function@),
    {
        plugin_function_exists(&self.plugin, function)
    }

    fn call(&mut self, function: &str, cbor: &[u8]) -> (res: Result<Vec<u8>, LogicError>)
        ensures
            final(self).output_limit() == old(self).output_limit(),
            res matches Ok(output) ==> output@.len() <= old(self).output_limit(),
            res matches Err(LogicError::OutputTooLarge { actual, limit }) ==> limit
                == old(self).output_limit() && actual > limit,
            res matches Err(LogicError::MissingFunction(name)) ==> name@ == function@,
            (res matches Err(LogicError::MissingFunction(_))) <==> !plugin_exports(
                old(self).plugin(),
                function@,
            ),
            res is Err ==> (res matches Err(LogicError::MissingFunction(_))) || (res matches Err(
                LogicError::Call(_),
            )) || (res matches Err(LogicError::OutputTooLarge { .. })),
    {
        if !self.has_function(function) {
            return Err(LogicError::MissingFunction(String::from_str(function)));
        }
        let result = plugin_call(&mut self.plugin, function, cbor);
        finish_call(result, self.max_output_bytes)
    }
}

} // verus!
