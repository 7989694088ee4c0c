# awsm

A terminal browser for AWS: S3 buckets and objects, DynamoDB tables and
items, Lambda functions, CloudWatch Logs groups, streams and events, and
Secrets Manager secrets.

The decisions of the browser are a library verified with Verus; the program
around it draws the screens, reads the keyboard and calls AWS.

- `src/` — the verified library
  - `app.rs`: the application state, the actions and where a key goes
  - `ui/services/`: one module per service screen, each with its state,
    its key handling (a step function from state and key to state and
    action), its filtered and sorted lists
  - `aws/`: the rows and details of each service, the error messages, the
    DynamoDB key schema, query and filter expressions, the S3 listing
  - `order.rs`: stable sorting of rows by typed keys
  - `text.rs`, `units.rs`, `nav.rs`, `input.rs`, `keys.rs`: text,
    sizes, cursor movement, key presses
  - `profiles.rs`: the profiles named in the AWS config files
  - `laws.rs`: properties that relate several operations
- `tests/` — tests of the library on concrete values
- `app/` — the program: terminal, drawing (ratatui), keyboard (crossterm),
  AWS SDK calls, and the few computations done in floating point
