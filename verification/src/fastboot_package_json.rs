//! Builds the `package.json`-shaped SSR descriptor: the hashed bundle
//! paths from the manifest, the augmented application configuration, the
//! host whitelist and the fixed schema fields, serialized as JSON text.
//! Writing the document to the output directory is the caller's work.

use vstd::prelude::*;
use crate::descriptor::ConfigValue;
use crate::descriptor::JsonModel;
use crate::descriptor::cv_model;
use crate::descriptor::cv_models;
use crate::descriptor::cv_field_models;
use crate::descriptor::lemma_cv_models_index;
use crate::descriptor::lemma_cv_field_models_index;
use crate::descriptor::spec_augment_env;
use crate::descriptor::spec_model_json;
use crate::errors::BundleError;
use crate::manifest::AssetManifest;

verus! {

/// String models for a list of hosts.
pub open spec fn strs_models(hosts: Seq<Seq<char>>) -> Seq<JsonModel> {
    hosts.map_values(|h: Seq<char>| JsonModel::Str(h))
}

/// The whole descriptor document as a model: fixed `dependencies`, and a
/// `fastboot` object naming the application, embedding its augmented
/// configuration under its own name, the host whitelist, the bundle
/// manifest, the fixed module whitelist and the schema version.
pub open spec fn spec_descriptor_model(
    env: JsonModel,
    app_name: Seq<char>,
    hosts: Seq<Seq<char>>,
    app_path: Seq<char>,
    vendor_path: Seq<char>,
    memserver_path: Option<Seq<char>>,
) -> JsonModel {
    let app_files = match memserver_path {
        Some(m) => seq![JsonModel::Str(app_path), JsonModel::Str(m)],
        None => seq![JsonModel::Str(app_path)],
    };
    JsonModel::Obj(
        seq![
            ("dependencies"@, JsonModel::Obj(Seq::empty())),
            (
                "fastboot"@,
                JsonModel::Obj(
                    seq![
                        ("appName"@, JsonModel::Str(app_name)),
                        (
                            "config"@,
                            JsonModel::Obj(seq![(app_name, spec_augment_env(env, app_name))]),
                        ),
                        ("hostWhitelist"@, JsonModel::Arr(strs_models(hosts))),
                        (
                            "manifest"@,
                            JsonModel::Obj(
                                seq![
                                    ("appFiles"@, JsonModel::Arr(app_files)),
                                    ("htmlFile"@, JsonModel::Str("index.html"@)),
                                    (
                                        "vendorFiles"@,
                                        JsonModel::Arr(seq![JsonModel::Str(vendor_path)]),
                                    ),
                                ],
                            ),
                        ),
                        (
                            "moduleWhitelist"@,
                            JsonModel::Arr(
                                seq![
                                    JsonModel::Str("node-fetch"@),
                                    JsonModel::Str("abortcontroller-polyfill"@),
                                ],
                            ),
                        ),
                        ("schemaVersion"@, JsonModel::Int(3)),
                    ],
                ),
            ),
        ],
    )
}

/// Builds the SSR descriptor text.  The manifest must name the hashed
/// application and vendor bundles, and the in-memory-server bundle when
/// that feature is on; the first missing one is the fatal configuration
/// error.
#[verifier::rlimit(80)]
pub fn build(
    asset_map: &AssetManifest,
    application_name: &str,
    env: &ConfigValue,
    memserver_enabled: bool,
    host_whitelist: &Vec<String>,
) -> (r: Result<String, BundleError>)
    ensures
        ({
            let app = asset_map.spec_get("assets/application.js"@);
            let vendor = asset_map.spec_get("assets/vendor.js"@);
            let mems = asset_map.spec_get("assets/memserver.js"@);
            &&& (r is Ok <==> app is Some && vendor is Some && (memserver_enabled ==> mems
                is Some))
            &&& (r matches Ok(s) ==> s@ == spec_model_json(
                spec_descriptor_model(
                    cv_model(*env),
                    application_name@,
                    crate::bundle::view_strs(host_whitelist@),
                    app.unwrap(),
                    vendor.unwrap(),
                    if memserver_enabled {
                        Some(mems.unwrap())
                    } else {
                        None
                    },
                ),
            ))
            &&& (r matches Err(e) ==> e matches BundleError::ManifestIncomplete(p) && (if app
                is None {
                p@ == "assets/application.js"@
            } else if vendor is None {
                p@ == "assets/vendor.js"@
            } else {
                memserver_enabled && mems is None && p@ == "assets/memserver.js"@
            }))
        }),
{
    let app_path: String = match asset_map.get("assets/application.js") {
        Some(p) => p.clone(),
        None => {
            return Err(BundleError::ManifestIncomplete("assets/application.js".to_owned()));
        },
    };
    let vendor_path: String = match asset_map.get("assets/vendor.js") {
        Some(p) => p.clone(),
        None => {
            return Err(BundleError::ManifestIncomplete("assets/vendor.js".to_owned()));
        },
    };
    let memserver_path: Option<String> = if memserver_enabled {
        match asset_map.get("assets/memserver.js") {
            Some(p) => Some(p.clone()),
            None => {
                return Err(BundleError::ManifestIncomplete("assets/memserver.js".to_owned()));
            },
        }
    } else {
        None
    };
    let ghost gapp = app_path@;
    let ghost gvendor = vendor_path@;
    let ghost gmems = match memserver_path {
        Some(ref m) => Some(m@),
        None => None,
    };

    // the bundle manifest block
    let mut app_files: Vec<ConfigValue> = Vec::new();
    app_files.push(ConfigValue::Str(app_path));
    match memserver_path {
        Some(m) => {
            app_files.push(ConfigValue::Str(m));
        },
        None => {},
    }
    proof {
        lemma_cv_models_index(app_files@);
        match gmems {
            Some(gm) => {
                assert(cv_models(app_files@)[0] == cv_model(app_files@[0]));
                assert(cv_models(app_files@)[0] == JsonModel::Str(gapp));
                assert(cv_models(app_files@)[1] == cv_model(app_files@[1]));
                assert(cv_models(app_files@)[1] == JsonModel::Str(gm));
                assert(cv_models(app_files@) =~= seq![
                    JsonModel::Str(gapp),
                    JsonModel::Str(gm),
                ]);
            },
            None => {
                assert(cv_models(app_files@)[0] == cv_model(app_files@[0]));
                assert(cv_models(app_files@)[0] == JsonModel::Str(gapp));
                assert(cv_models(app_files@) =~= seq![JsonModel::Str(gapp)]);
            },
        }
    }
    let mut vendor_files: Vec<ConfigValue> = Vec::new();
    vendor_files.push(ConfigValue::Str(vendor_path));
    proof {
        lemma_cv_models_index(vendor_files@);
        assert(cv_models(vendor_files@) =~= seq![JsonModel::Str(gvendor)]);
    }
    let mut manifest_fields: Vec<(String, ConfigValue)> = Vec::new();
    manifest_fields.push(("appFiles".to_owned(), ConfigValue::Arr(app_files)));
    manifest_fields.push(("htmlFile".to_owned(), ConfigValue::Str("index.html".to_owned())));
    manifest_fields.push(("vendorFiles".to_owned(), ConfigValue::Arr(vendor_files)));
    let ghost gmanifest = cv_field_models(manifest_fields@);
    proof {
        lemma_cv_field_models_index(manifest_fields@);
        assert(gmanifest[0] == ("appFiles"@, cv_model(manifest_fields@[0].1)));
        assert(gmanifest[1] == ("htmlFile"@, cv_model(manifest_fields@[1].1)));
        assert(gmanifest[2] == ("vendorFiles"@, cv_model(manifest_fields@[2].1)));
        assert(gmanifest =~= seq![
            (
                "appFiles"@,
                JsonModel::Arr(
                    match gmems {
                        Some(gm) => seq![JsonModel::Str(gapp), JsonModel::Str(gm)],
                        None => seq![JsonModel::Str(gapp)],
                    },
                ),
            ),
            ("htmlFile"@, JsonModel::Str("index.html"@)),
            ("vendorFiles"@, JsonModel::Arr(seq![JsonModel::Str(gvendor)])),
        ]);
    }

    // the host whitelist, as given
    let mut hosts: Vec<ConfigValue> = Vec::new();
    let mut i: usize = 0;
    while i < host_whitelist.len()
        invariant
            0 <= i <= host_whitelist@.len(),
            cv_models(hosts@) == strs_models(
                crate::bundle::view_strs(host_whitelist@.take(i as int)),
            ),
        decreases host_whitelist@.len() - i,
    {
        let ghost prev = hosts@;
        hosts.push(ConfigValue::Str(host_whitelist[i].clone()));
        i += 1;
        proof {
            assert(hosts@.drop_last() =~= prev);
            assert(hosts@.last() matches ConfigValue::Str(h) && h@ == host_whitelist@[i - 1]@);
            assert(cv_model(hosts@.last()) == JsonModel::Str(host_whitelist@[i - 1]@));
            assert(cv_models(hosts@) == cv_models(prev).push(
                JsonModel::Str(host_whitelist@[i - 1]@),
            ));
            assert(cv_models(hosts@) =~= strs_models(
                crate::bundle::view_strs(host_whitelist@.take(i as int)),
            ));
        }
    }
    proof {
        assert(host_whitelist@.take(host_whitelist@.len() as int) =~= host_whitelist@);
    }

    // the fixed module whitelist
    let mut modules: Vec<ConfigValue> = Vec::new();
    modules.push(ConfigValue::Str("node-fetch".to_owned()));
    modules.push(ConfigValue::Str("abortcontroller-polyfill".to_owned()));
    proof {
        lemma_cv_models_index(modules@);
        assert(modules@.len() == 2);
        assert(cv_models(modules@).len() == 2);
        assert(modules@[0] matches ConfigValue::Str(s) && s@ == "node-fetch"@);
        assert(cv_models(modules@)[0] == cv_model(modules@[0]));
        assert(cv_models(modules@)[0] == JsonModel::Str("node-fetch"@));
        assert(cv_models(modules@)[1] == JsonModel::Str("abortcontroller-polyfill"@));
        assert(cv_models(modules@) =~= seq![
            JsonModel::Str("node-fetch"@),
            JsonModel::Str("abortcontroller-polyfill"@),
        ]);
    }

    // the per-application config block
    let augmented = crate::descriptor::augment_env(env, application_name);
    let mut config_fields: Vec<(String, ConfigValue)> = Vec::new();
    config_fields.push((application_name.to_owned(), augmented));
    proof {
        lemma_cv_field_models_index(config_fields@);
        assert(cv_field_models(config_fields@)[0] == (application_name@,
        cv_model(config_fields@[0].1)));
        assert(cv_field_models(config_fields@) =~= seq![
            (application_name@, spec_augment_env(cv_model(*env), application_name@)),
        ]);
    }

    // the fastboot object and the document root
    let mut fastboot_fields: Vec<(String, ConfigValue)> = Vec::new();
    fastboot_fields.push(("appName".to_owned(), ConfigValue::Str(application_name.to_owned())));
    fastboot_fields.push(("config".to_owned(), ConfigValue::Obj(config_fields)));
    fastboot_fields.push(("hostWhitelist".to_owned(), ConfigValue::Arr(hosts)));
    fastboot_fields.push(("manifest".to_owned(), ConfigValue::Obj(manifest_fields)));
    fastboot_fields.push(("moduleWhitelist".to_owned(), ConfigValue::Arr(modules)));
    fastboot_fields.push(("schemaVersion".to_owned(), ConfigValue::Int(3)));
    let ghost gfastboot = cv_field_models(fastboot_fields@);
    proof {
        lemma_cv_field_models_index(fastboot_fields@);
        assert(gfastboot[0] == ("appName"@, cv_model(fastboot_fields@[0].1)));
        assert(gfastboot[1] == ("config"@, cv_model(fastboot_fields@[1].1)));
        assert(gfastboot[2] == ("hostWhitelist"@, cv_model(fastboot_fields@[2].1)));
        assert(gfastboot[3] == ("manifest"@, cv_model(fastboot_fields@[3].1)));
        assert(gfastboot[4] == ("moduleWhitelist"@, cv_model(fastboot_fields@[4].1)));
        assert(gfastboot[5] == ("schemaVersion"@, cv_model(fastboot_fields@[5].1)));
        assert(gfastboot =~= seq![
            ("appName"@, JsonModel::Str(application_name@)),
            (
                "config"@,
                JsonModel::Obj(seq![
                    (application_name@, spec_augment_env(cv_model(*env), application_name@)),
                ]),
            ),
            (
                "hostWhitelist"@,
                JsonModel::Arr(strs_models(crate::bundle::view_strs(host_whitelist@))),
            ),
            ("manifest"@, JsonModel::Obj(gmanifest)),
            (
                "moduleWhitelist"@,
                JsonModel::Arr(seq![
                    JsonModel::Str("node-fetch"@),
                    JsonModel::Str("abortcontroller-polyfill"@),
                ]),
            ),
            ("schemaVersion"@, JsonModel::Int(3)),
        ]);
    }
    let deps_fields: Vec<(String, ConfigValue)> = Vec::new();
    proof {
        assert(cv_field_models(deps_fields@) =~= Seq::empty());
    }
    let mut top_fields: Vec<(String, ConfigValue)> = Vec::new();
    top_fields.push(("dependencies".to_owned(), ConfigValue::Obj(deps_fields)));
    top_fields.push(("fastboot".to_owned(), ConfigValue::Obj(fastboot_fields)));
    proof {
        lemma_cv_field_models_index(top_fields@);
        assert(cv_field_models(top_fields@)[0] == ("dependencies"@, cv_model(
            top_fields@[0].1,
        )));
        assert(cv_field_models(top_fields@)[0] == ("dependencies"@, JsonModel::Obj(
            Seq::empty(),
        )));
        assert(cv_field_models(top_fields@)[1] == ("fastboot"@, cv_model(top_fields@[1].1)));
        assert(cv_field_models(top_fields@)[1] == ("fastboot"@, JsonModel::Obj(gfastboot)));
    }
    let ghost gtop = cv_field_models(top_fields@);
    let top = ConfigValue::Obj(top_fields);
    proof {
        assert(cv_model(top) == JsonModel::Obj(gtop));
        assert(gtop =~= seq![
            ("dependencies"@, JsonModel::Obj(Seq::empty())),
            ("fastboot"@, JsonModel::Obj(gfastboot)),
        ]);
        let appfiles_m: Seq<JsonModel> = match gmems {
            Some(gm) => seq![JsonModel::Str(gapp), JsonModel::Str(gm)],
            None => seq![JsonModel::Str(gapp)],
        };
        let sfb: Seq<(Seq<char>, JsonModel)> = seq![
            ("appName"@, JsonModel::Str(application_name@)),
            ("config"@, JsonModel::Obj(seq![
                (application_name@, spec_augment_env(cv_model(*env), application_name@)),
            ])),
            ("hostWhitelist"@, JsonModel::Arr(strs_models(
                crate::bundle::view_strs(host_whitelist@),
            ))),
            ("manifest"@, JsonModel::Obj(seq![
                ("appFiles"@, JsonModel::Arr(appfiles_m)),
                ("htmlFile"@, JsonModel::Str("index.html"@)),
                ("vendorFiles"@, JsonModel::Arr(seq![JsonModel::Str(gvendor)])),
            ])),
            ("moduleWhitelist"@, JsonModel::Arr(seq![
                JsonModel::Str("node-fetch"@),
                JsonModel::Str("abortcontroller-polyfill"@),
            ])),
            ("schemaVersion"@, JsonModel::Int(3)),
        ];
        let sm = spec_descriptor_model(
            cv_model(*env),
            application_name@,
            crate::bundle::view_strs(host_whitelist@),
            gapp,
            gvendor,
            gmems,
        );
        assert(gfastboot[0] == ("appName"@, JsonModel::Str(application_name@)));
        assert(gfastboot[1] == ("config"@, JsonModel::Obj(seq![
            (application_name@, spec_augment_env(cv_model(*env), application_name@)),
        ])));
        assert(gfastboot[2] == ("hostWhitelist"@, JsonModel::Arr(strs_models(
            crate::bundle::view_strs(host_whitelist@),
        ))));
        assert(gfastboot[3] == ("manifest"@, JsonModel::Obj(gmanifest)));
        assert(gmanifest == seq![
            ("appFiles"@, JsonModel::Arr(appfiles_m)),
            ("htmlFile"@, JsonModel::Str("index.html"@)),
            ("vendorFiles"@, JsonModel::Arr(seq![JsonModel::Str(gvendor)])),
        ]);
        assert(gfastboot[4] == ("moduleWhitelist"@, JsonModel::Arr(seq![
            JsonModel::Str("node-fetch"@),
            JsonModel::Str("abortcontroller-polyfill"@),
        ])));
        assert(gfastboot[5] == ("schemaVersion"@, JsonModel::Int(3)));
        assert(gfastboot =~~= sfb);
        assert(cv_model(top) == JsonModel::Obj(gtop));
        assert(gtop == seq![
            ("dependencies"@, JsonModel::Obj(Seq::empty())),
            ("fastboot"@, JsonModel::Obj(sfb)),
        ]);
        assert(sm == JsonModel::Obj(seq![
            ("dependencies"@, JsonModel::Obj(Seq::empty())),
            ("fastboot"@, JsonModel::Obj(sfb)),
        ]));
        assert(cv_model(top) =~~= sm);
    }
    Ok(crate::descriptor::value_to_json(&top))
}

} // verus!
