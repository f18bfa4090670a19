use mber::html_file::find_internal_assets_from_html;
use mber::html_file::uri_is_external;

#[test]
fn find_internal_assets_from_html_works_for_only_js() {
    let html = r##"
    <!DOCTYPE html>
    <html lang="en">
      <head>
        <meta http-equiv="X-UA-Compatible" content="IE=edge">

        <meta charset="utf-8">
        <meta name="viewport" content="width=device-width, initial-scale=1, shrink-to-fit=no">

        <meta name="description" content="">
        <!-- EMBER_CLI_FASTBOOT_TITLE --><!-- EMBER_CLI_FASTBOOT_HEAD -->
      </head>
      <body>
        <!-- EMBER_CLI_FASTBOOT_BODY -->

        <script src="https://markets.live/vendor.js"></script>
        <script src="/assets/vendor.js"></script>
        <script src="/assets/application.js"></script>
      </body>
    </html>
    "##;
    let (scripts, styles) = find_internal_assets_from_html(html);
    let empty_vec: Vec<String> = Vec::new();

    assert_eq!(
        scripts,
        vec!["/assets/vendor.js".to_string(), "/assets/application.js".to_string()]
    );
    assert_eq!(styles, empty_vec);
}

#[test]
fn find_internal_assets_from_html_works_for_only_css() {
    let html = r##"
    <!DOCTYPE html>
    <html lang="en">
      <head>
        <meta http-equiv="X-UA-Compatible" content="IE=edge">

        <meta charset="utf-8">
        <meta name="viewport" content="width=device-width, initial-scale=1, shrink-to-fit=no">

        <meta name="description" content="">
        <link rel="stylesheet" href="https://markets.live/assets/vendor.css">
        <link rel="stylesheet" href="/assets/vendor-styles.css">
        <link rel="stylesheet" href="/assets/application-styles.css">
      </head>
      <body>
      </body>
    </html>
    "##;
    let (scripts, styles) = find_internal_assets_from_html(html);
    let empty_vec: Vec<String> = Vec::new();

    assert_eq!(scripts, empty_vec);
    assert_eq!(
        styles,
        vec!["/assets/vendor-styles.css".to_string(), "/assets/application-styles.css".to_string()]
    );
}

#[test]
fn find_internal_assets_from_html_works_for_html_files_with_bunch_of_different_js_and_css() {
    let html = r##"
    <!DOCTYPE html>
    <html>
      <head>
        <meta charset="utf-8">
        <meta http-equiv="X-UA-Compatible" content="IE=edge">
        <meta name="description" content="">
        <meta name="viewport" content="width=device-width, initial-scale=1">

        <link rel="stylesheet" href="https://markets.live/assets/application.css">
        <link rel="stylesheet" href="//izelnakri.com/assets/application.css">
        <link rel="stylesheet" href="/assets/application.css">
        <link rel="stylesheet" href="assets/test-support.css">

        <script src="/assets/init.js"></script>
      </head>
      <body style="margin: 0;">
        <div id="qunit"></div>
        <div id="qunit-fixture"></div>

        <div id="ember-testing-container">
          <div id="ember-testing"></div>
        </div>

        <script src="https://markets.live/assets/all.js"></script>
        <script src="//izelnakri.com/assets/all.js"></script>
        <script src="/assets/vendor.js"></script>
        <script type="text/javascript">
          document.addEventListener('keydown', function(event) {
            event.keyCode === 80 ? document.querySelector('#qunit-abort-tests-button').click() : null;
          });
        </script>
        <script src="/assets/test-support.js"></script>
        <script src="/assets/application.js"></script>
        <script src="/assets/tests.js"></script>
      </body>
    </html>
    "##;
    let (scripts, styles) = find_internal_assets_from_html(html);

    assert_eq!(
        scripts,
        vec![
            "/assets/init.js".to_string(),
            "/assets/vendor.js".to_string(),
            "/assets/test-support.js".to_string(),
            "/assets/application.js".to_string(),
            "/assets/tests.js".to_string(),
        ]
    );
    assert_eq!(
        styles,
        vec!["/assets/application.css".to_string(), "assets/test-support.css".to_string()]
    );
}

#[test]
fn str_is_absolute_url_returns_false_for_local_references() {
    assert_eq!(uri_is_external("http://localhost:8000/index.js"), false);
    assert_eq!(uri_is_external("https://localhost:8000/index.js"), false);
    assert_eq!(uri_is_external("/documentation.js"), false);
    assert_eq!(uri_is_external("memserver.js"), false);

    assert_eq!(uri_is_external("HTTP://LOCALHOST:8000/INDEX.JS"), false);
    assert_eq!(uri_is_external("HTTPS://LOCALHOST:8000/INDEX.JS"), false);
    assert_eq!(uri_is_external("/DOCUMENTATION.JS"), false);
    assert_eq!(uri_is_external("MEMSERVER.JS"), false);
}

#[test]
fn str_is_absolute_url_returns_true_for_external_references() {
    assert_eq!(uri_is_external("https://markets.live/application.js"), true);
    assert_eq!(uri_is_external("https://www.markets.live/application.js"), true);
    assert_eq!(uri_is_external("http://izelnakri.com/vendor.js"), true);
    assert_eq!(uri_is_external("http://www.izelnakri.com/vendor.js"), true);
    assert_eq!(uri_is_external("//us1.cdnjs.com/underscore.js"), true);

    assert_eq!(uri_is_external("HTTPS://MARKETS.LIVE/APPLICATION.JS"), true);
    assert_eq!(uri_is_external("HTTPS://WWW.MARKETS.LIVE/APPLICATION.JS"), true);
    assert_eq!(uri_is_external("HTTP://IZELNAKRI.COM/VENDOR.JS"), true);
    assert_eq!(uri_is_external("HTTP://WWW.IZELNAKRI.COM/VENDOR.JS"), true);
    assert_eq!(uri_is_external("//US1.CDNJS.COM/UNDERSCORE.JS"), true);
}

#[test]
fn external_reference_exclusion_of_spec_examples() {
    assert!(uri_is_external("https://example.com/app.js"));
    assert!(uri_is_external("//cdn.example.com/app.js"));
    assert!(!uri_is_external("http://localhost:4200/app.js"));
    assert!(!uri_is_external("/assets/app.js"));

    let html = r##"<html><body>
        <script src="https://example.com/app.js"></script>
        <script src="//cdn.example.com/app.js"></script>
        <script src="http://localhost:4200/app.js"></script>
        <script src="/assets/app.js"></script>
        <script src=""></script>
    </body></html>"##;
    let (scripts, _styles) = find_internal_assets_from_html(html);
    assert_eq!(
        scripts,
        vec!["http://localhost:4200/app.js".to_string(), "/assets/app.js".to_string()]
    );
}
