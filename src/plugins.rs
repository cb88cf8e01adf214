//! The capability of third-party texture transformations, checked once at registration.
use vstd::prelude::*;
use vstd::string::StringSliceAdditionalSpecFns;

verus! {

/// The name under which a plugin registers.
#[derive(Debug, Clone, Copy)]
pub struct PluginRegistryKey {
    pub name: &'static str,
}

impl PluginRegistryKey {
    /// Whether two keys are written the same.
    pub fn same_as(&self, other: &PluginRegistryKey) -> (r: bool)
        ensures
            r == (self.name.spec_bytes() == other.name.spec_bytes()),
    {
        let a = self.name.as_bytes();
        let b = other.name.as_bytes();
        if a.len() != b.len() {
            return false;
        }
        let mut i: usize = 0;
        while i < a.len()
            invariant
                a@ == self.name.spec_bytes(),
                b@ == other.name.spec_bytes(),
                a@.len() == b@.len(),
                i <= a@.len(),
                forall|j: int| 0 <= j < i ==> a@[j] == b@[j],
            decreases a@.len() - i,
        {
            if a[i] != b[i] {
                return false;
            }
            i += 1;
        }
        assert(a@ =~= b@);
        true
    }
}

/// The key a plugin may be registered under, given the key its type advertises and the
/// key its value reports: the key, when the two agree.
pub fn agreed_key(advertised: PluginRegistryKey, reported: PluginRegistryKey) -> (r: Option<
    PluginRegistryKey,
>)
    ensures
        r is Some <==> advertised.name.spec_bytes() == reported.name.spec_bytes(),
        r is Some ==> r->0 == advertised,
{
    if advertised.same_as(&reported) {
        Some(advertised)
    } else {
        None
    }
}

/// A plugin: a type with a registry key and an argument type.
pub trait CustomProcessor {
    /// The argument each invocation receives.
    type Arg;

    /// The key the plugin's type advertises, as a value.
    spec fn advertised_key() -> PluginRegistryKey;

    /// The key a plugin value reports, as a value.
    spec fn reported_key(&self) -> PluginRegistryKey;

    /// The key the plugin's type advertises.
    fn registry_key() -> (r: PluginRegistryKey) where Self: Sized
        ensures
            r == Self::advertised_key(),
    ;

    /// The key a plugin value reports.
    fn registry_key_dyn(&self) -> (r: PluginRegistryKey)
        ensures
            r == self.reported_key(),
    ;
}

/// A plugin that transforms a video's texture, driven by an argument of its own type.
pub trait Transformation: CustomProcessor {
    /// Applies the transformation with its argument.
    fn do_stuff(&self, arg: &Self::Arg);
}

/// A transformation whose argument type its caller need not know by name.
pub trait UntypedTransformation {
    /// The key under which the transformation was registered, as a value.
    spec fn registered_key(&self) -> PluginRegistryKey;

    /// The key under which the transformation was registered.
    fn registry_key(&self) -> (r: PluginRegistryKey)
        ensures
            r == self.registered_key(),
    ;
}

/// A transformation together with the key that was checked when it was registered.
pub struct RegisteredTransformation<T> {
    key: PluginRegistryKey,
    transformation: T,
}

impl<T> RegisteredTransformation<T> {
    /// The key that was checked at registration.
    pub closed spec fn key_spec(&self) -> PluginRegistryKey {
        self.key
    }

    /// The registered transformation.
    pub closed spec fn transformation_spec(&self) -> T {
        self.transformation
    }
}

impl<T: Transformation> RegisteredTransformation<T> {
    /// Registers a transformation, which succeeds exactly when the key its type advertises
    /// and the key it reports agree; it is then registered under the advertised key.
    pub fn register(transformation: T) -> (r: Option<RegisteredTransformation<T>>)
        ensures
            r is Some <==> T::advertised_key().name.spec_bytes()
                == transformation.reported_key().name.spec_bytes(),
            r is Some ==> r->0.key_spec() == T::advertised_key() && r->0.transformation_spec()
                == transformation,
    {
        let advertised = T::registry_key();
        let reported = transformation.registry_key_dyn();
        match agreed_key(advertised, reported) {
            Some(key) => {
                proof {
                    assert(key == advertised);
                }
                Some(RegisteredTransformation { key, transformation })
            },
            None => None,
        }
    }

    /// Applies the transformation with an argument of its own type.
    pub fn apply(&self, arg: &T::Arg) {
        self.transformation.do_stuff(arg)
    }
}

impl<T: Transformation> UntypedTransformation for RegisteredTransformation<T> {
    open spec fn registered_key(&self) -> PluginRegistryKey {
        self.key_spec()
    }

    fn registry_key(&self) -> (r: PluginRegistryKey) {
        self.key
    }
}

} // verus!
