# ticket_booking

A service that takes orders of tickets for the events of a local club,
publishes them on a Kafka topic and realizes them in a Postgres ticket store.

- `src/` is the verified library (Verus): orders and tickets and their textual
  forms, the errors, the Kafka client settings and what a received or sent
  message comes to, the rules for turning a request into an order and an
  outcome into an HTTP answer, and the realization of an order in the ticket
  store as a state machine that decides, answer by answer, what the database
  is asked next. The laws of that machine are proved in
  `src/repository/storage.rs`.
- `app/` is the program around it: the warp HTTP server, the rdkafka producer
  and consumer, the sqlx transaction that carries out what the realization
  asks for, and the serde forms of the library's types.
- `tests/` runs the library on concrete values.
