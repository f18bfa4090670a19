use mber::convert_es_module::from_string;

#[test]
fn convert_es_module_from_string_works() {
    let code = "import EmberRouter from '@ember/routing/router';
import DocumentationRouter from 'mber-documentation';
import ENV from '../config/environment';

const Router = EmberRouter.extend({{
  location: ENV.locationType,
  rootURL: ENV.rootURL
}});

Router.map(function() {{
  this.route('index', {{ path: '/' }});

  if (ENV.documentation && ENV.documentation.enabled) {{
    DocumentationRouter.apply(this, [ENV]);
  }}

  this.route('not-found', {{ path: '/*path' }});
}});

export default Router;";
    let expected_output = "function(){{ }};";

    assert_eq!(from_string(code, "src/router", false), expected_output);
}
