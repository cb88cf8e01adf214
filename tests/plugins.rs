use membrane_videocompositor::plugins::{
    agreed_key, CustomProcessor, PluginRegistryKey, RegisteredTransformation, Transformation,
    UntypedTransformation,
};
use std::cell::Cell;

struct Crop {
    reported: &'static str,
    applied: Cell<u32>,
}

impl CustomProcessor for Crop {
    type Arg = u32;

    fn advertised_key() -> PluginRegistryKey {
        PluginRegistryKey { name: "crop" }
    }

    fn reported_key(&self) -> PluginRegistryKey {
        PluginRegistryKey { name: self.reported }
    }

    fn registry_key() -> PluginRegistryKey {
        PluginRegistryKey { name: "crop" }
    }

    fn registry_key_dyn(&self) -> PluginRegistryKey {
        PluginRegistryKey { name: self.reported }
    }
}

impl Transformation for Crop {
    fn do_stuff(&self, arg: &u32) {
        self.applied.set(self.applied.get() + *arg);
    }
}

#[test]
fn keys_compare_by_text() {
    let a = PluginRegistryKey { name: "crop" };
    assert!(a.same_as(&PluginRegistryKey { name: "crop" }));
    assert!(!a.same_as(&PluginRegistryKey { name: "crap" }));
    assert!(!a.same_as(&PluginRegistryKey { name: "cro" }));
    assert_eq!(agreed_key(a, PluginRegistryKey { name: "crop" }).map(|k| k.name), Some("crop"));
    assert!(agreed_key(a, PluginRegistryKey { name: "mask" }).is_none());
}

#[test]
fn registration_checks_the_key_once() {
    let ok = RegisteredTransformation::register(Crop { reported: "crop", applied: Cell::new(0) });
    let ok = ok.expect("keys agree");
    assert_eq!(ok.registry_key().name, "crop");
    ok.apply(&5);
    ok.apply(&2);
    let bad = RegisteredTransformation::register(Crop { reported: "mask", applied: Cell::new(0) });
    assert!(bad.is_none());
}
